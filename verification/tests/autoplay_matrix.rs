use rulatro::autoplay::{target_reached, AutoAction, EvalMetrics, TargetConfig};

#[test]
fn target_case_0() {
    let metrics = EvalMetrics {
        ante: 1,
        money: 0,
        blind_score: 0,
        blind_target: 1000,
        blind_failed: false,
        blind_cleared: false,
    };
    let target = TargetConfig {
        target_score: Some(0),
        target_ante: Some(1),
        target_money: Some(0),
        stop_on_blind_failed: true,
    };
    assert_eq!(target_reached(metrics, target), true);
}

#[test]
fn target_case_1() {
    let metrics = EvalMetrics {
        ante: 1,
        money: 0,
        blind_score: 0,
        blind_target: 1000,
        blind_failed: false,
        blind_cleared: false,
    };
    let target = TargetConfig {
        target_score: Some(0),
        target_ante: Some(2),
        target_money: Some(0),
        stop_on_blind_failed: true,
    };
    assert_eq!(target_reached(metrics, target), false);
}

#[test]
fn target_case_2() {
    let metrics = EvalMetrics {
        ante: 1,
        money: 0,
        blind_score: 200,
        blind_target: 1000,
        blind_failed: false,
        blind_cleared: false,
    };
    let target = TargetConfig {
        target_score: Some(200),
        target_ante: Some(1),
        target_money: Some(0),
        stop_on_blind_failed: true,
    };
    assert_eq!(target_reached(metrics, target), true);
}

#[test]
fn target_case_3() {
    let metrics = EvalMetrics {
        ante: 1,
        money: 0,
        blind_score: 200,
        blind_target: 1000,
        blind_failed: false,
        blind_cleared: false,
    };
    let target = TargetConfig {
        target_score: Some(200),
        target_ante: Some(2),
        target_money: Some(0),
        stop_on_blind_failed: true,
    };
    assert_eq!(target_reached(metrics, target), false);
}

#[test]
fn target_case_4() {
    let metrics = EvalMetrics {
        ante: 1,
        money: 0,
        blind_score: 500,
        blind_target: 1000,
        blind_failed: false,
        blind_cleared: false,
    };
    let target = TargetConfig {
        target_score: Some(500),
        target_ante: Some(1),
        target_money: Some(0),
        stop_on_blind_failed: true,
    };
    assert_eq!(target_reached(metrics, target), true);
}

#[test]
fn target_case_5() {
    let metrics = EvalMetrics {
        ante: 1,
        money: 0,
        blind_score: 500,
        blind_target: 1000,
        blind_failed: false,
        blind_cleared: false,
    };
    let target = TargetConfig {
        target_score: Some(500),
        target_ante: Some(2),
        target_money: Some(0),
        stop_on_blind_failed: true,
    };
    assert_eq!(target_reached(metrics, target), false);
}

#[test]
fn target_case_6() {
    let metrics = EvalMetrics {
        ante: 1,
        money: 0,
        blind_score: 1000,
        blind_target: 1000,
        blind_failed: false,
        blind_cleared: false,
    };
    let target = TargetConfig {
        target_score: Some(1000),
        target_ante: Some(1),
        target_money: Some(0),
        stop_on_blind_failed: true,
    };
    assert_eq!(target_reached(metrics, target), true);
}

#[test]
fn target_case_7() {
    let metrics = EvalMetrics {
        ante: 1,
        money: 0,
        blind_score: 1000,
        blind_target: 1000,
        blind_failed: false,
        blind_cleared: false,
    };
    let target = TargetConfig {
        target_score: Some(1000),
        target_ante: Some(2),
        target_money: Some(0),
        stop_on_blind_failed: true,
    };
    assert_eq!(target_reached(metrics, target), false);
}

#[test]
fn target_case_8() {
    let metrics = EvalMetrics {
        ante: 1,
        money: 10,
        blind_score: 0,
        blind_target: 1000,
        blind_failed: false,
        blind_cleared: false,
    };
    let target = TargetConfig {
        target_score: Some(0),
        target_ante: Some(1),
        target_money: Some(10),
        stop_on_blind_failed: true,
    };
    assert_eq!(target_reached(metrics, target), true);
}

#[test]
fn target_case_9() {
    let metrics = EvalMetrics {
        ante: 1,
        money: 10,
        blind_score: 0,
        blind_target: 1000,
        blind_failed: false,
        blind_cleared: false,
    };
    let target = TargetConfig {
        target_score: Some(0),
        target_ante: Some(2),
        target_money: Some(10),
        stop_on_blind_failed: true,
    };
    assert_eq!(target_reached(metrics, target), false);
}

#[test]
fn target_case_10() {
    let metrics = EvalMetrics {
        ante: 1,
        money: 10,
        blind_score: 200,
        blind_target: 1000,
        blind_failed: false,
        blind_cleared: false,
    };
    let target = TargetConfig {
        target_score: Some(200),
        target_ante: Some(1),
        target_money: Some(10),
        stop_on_blind_failed: true,
    };
    assert_eq!(target_reached(metrics, target), true);
}

#[test]
fn target_case_11() {
    let metrics = EvalMetrics {
        ante: 1,
        money: 10,
        blind_score: 200,
        blind_target: 1000,
        blind_failed: false,
        blind_cleared: false,
    };
    let target = TargetConfig {
        target_score: Some(200),
        target_ante: Some(2),
        target_money: Some(10),
        stop_on_blind_failed: true,
    };
    assert_eq!(target_reached(metrics, target), false);
}

#[test]
fn target_case_12() {
    let metrics = EvalMetrics {
        ante: 1,
        money: 10,
        blind_score: 500,
        blind_target: 1000,
        blind_failed: false,
        blind_cleared: false,
    };
    let target = TargetConfig {
        target_score: Some(500),
        target_ante: Some(1),
        target_money: Some(10),
        stop_on_blind_failed: true,
    };
    assert_eq!(target_reached(metrics, target), true);
}

#[test]
fn target_case_13() {
    let metrics = EvalMetrics {
        ante: 1,
        money: 10,
        blind_score: 500,
        blind_target: 1000,
        blind_failed: false,
        blind_cleared: false,
    };
    let target = TargetConfig {
        target_score: Some(500),
        target_ante: Some(2),
        target_money: Some(10),
        stop_on_blind_failed: true,
    };
    assert_eq!(target_reached(metrics, target), false);
}

#[test]
fn target_case_14() {
    let metrics = EvalMetrics {
        ante: 1,
        money: 10,
        blind_score: 1000,
        blind_target: 1000,
        blind_failed: false,
        blind_cleared: false,
    };
    let target = TargetConfig {
        target_score: Some(1000),
        target_ante: Some(1),
        target_money: Some(10),
        stop_on_blind_failed: true,
    };
    assert_eq!(target_reached(metrics, target), true);
}

#[test]
fn target_case_15() {
    let metrics = EvalMetrics {
        ante: 1,
        money: 10,
        blind_score: 1000,
        blind_target: 1000,
        blind_failed: false,
        blind_cleared: false,
    };
    let target = TargetConfig {
        target_score: Some(1000),
        target_ante: Some(2),
        target_money: Some(10),
        stop_on_blind_failed: true,
    };
    assert_eq!(target_reached(metrics, target), false);
}

#[test]
fn target_case_16() {
    let metrics = EvalMetrics {
        ante: 1,
        money: 30,
        blind_score: 0,
        blind_target: 1000,
        blind_failed: false,
        blind_cleared: false,
    };
    let target = TargetConfig {
        target_score: Some(0),
        target_ante: Some(1),
        target_money: Some(30),
        stop_on_blind_failed: true,
    };
    assert_eq!(target_reached(metrics, target), true);
}

#[test]
fn target_case_17() {
    let metrics = EvalMetrics {
        ante: 1,
        money: 30,
        blind_score: 0,
        blind_target: 1000,
        blind_failed: false,
        blind_cleared: false,
    };
    let target = TargetConfig {
        target_score: Some(0),
        target_ante: Some(2),
        target_money: Some(30),
        stop_on_blind_failed: true,
    };
    assert_eq!(target_reached(metrics, target), false);
}

#[test]
fn target_case_18() {
    let metrics = EvalMetrics {
        ante: 1,
        money: 30,
        blind_score: 200,
        blind_target: 1000,
        blind_failed: false,
        blind_cleared: false,
    };
    let target = TargetConfig {
        target_score: Some(200),
        target_ante: Some(1),
        target_money: Some(30),
        stop_on_blind_failed: true,
    };
    assert_eq!(target_reached(metrics, target), true);
}

#[test]
fn target_case_19() {
    let metrics = EvalMetrics {
        ante: 1,
        money: 30,
        blind_score: 200,
        blind_target: 1000,
        blind_failed: false,
        blind_cleared: false,
    };
    let target = TargetConfig {
        target_score: Some(200),
        target_ante: Some(2),
        target_money: Some(30),
        stop_on_blind_failed: true,
    };
    assert_eq!(target_reached(metrics, target), false);
}

#[test]
fn target_case_20() {
    let metrics = EvalMetrics {
        ante: 1,
        money: 30,
        blind_score: 500,
        blind_target: 1000,
        blind_failed: false,
        blind_cleared: false,
    };
    let target = TargetConfig {
        target_score: Some(500),
        target_ante: Some(1),
        target_money: Some(30),
        stop_on_blind_failed: true,
    };
    assert_eq!(target_reached(metrics, target), true);
}

#[test]
fn target_case_21() {
    let metrics = EvalMetrics {
        ante: 1,
        money: 30,
        blind_score: 500,
        blind_target: 1000,
        blind_failed: false,
        blind_cleared: false,
    };
    let target = TargetConfig {
        target_score: Some(500),
        target_ante: Some(2),
        target_money: Some(30),
        stop_on_blind_failed: true,
    };
    assert_eq!(target_reached(metrics, target), false);
}

#[test]
fn target_case_22() {
    let metrics = EvalMetrics {
        ante: 1,
        money: 30,
        blind_score: 1000,
        blind_target: 1000,
        blind_failed: false,
        blind_cleared: false,
    };
    let target = TargetConfig {
        target_score: Some(1000),
        target_ante: Some(1),
        target_money: Some(30),
        stop_on_blind_failed: true,
    };
    assert_eq!(target_reached(metrics, target), true);
}

#[test]
fn target_case_23() {
    let metrics = EvalMetrics {
        ante: 1,
        money: 30,
        blind_score: 1000,
        blind_target: 1000,
        blind_failed: false,
        blind_cleared: false,
    };
    let target = TargetConfig {
        target_score: Some(1000),
        target_ante: Some(2),
        target_money: Some(30),
        stop_on_blind_failed: true,
    };
    assert_eq!(target_reached(metrics, target), false);
}

#[test]
fn target_case_24() {
    let metrics = EvalMetrics {
        ante: 1,
        money: 60,
        blind_score: 0,
        blind_target: 1000,
        blind_failed: false,
        blind_cleared: false,
    };
    let target = TargetConfig {
        target_score: Some(0),
        target_ante: Some(1),
        target_money: Some(60),
        stop_on_blind_failed: true,
    };
    assert_eq!(target_reached(metrics, target), true);
}

#[test]
fn target_case_25() {
    let metrics = EvalMetrics {
        ante: 1,
        money: 60,
        blind_score: 0,
        blind_target: 1000,
        blind_failed: false,
        blind_cleared: false,
    };
    let target = TargetConfig {
        target_score: Some(0),
        target_ante: Some(2),
        target_money: Some(60),
        stop_on_blind_failed: true,
    };
    assert_eq!(target_reached(metrics, target), false);
}

#[test]
fn target_case_26() {
    let metrics = EvalMetrics {
        ante: 1,
        money: 60,
        blind_score: 200,
        blind_target: 1000,
        blind_failed: false,
        blind_cleared: false,
    };
    let target = TargetConfig {
        target_score: Some(200),
        target_ante: Some(1),
        target_money: Some(60),
        stop_on_blind_failed: true,
    };
    assert_eq!(target_reached(metrics, target), true);
}

#[test]
fn target_case_27() {
    let metrics = EvalMetrics {
        ante: 1,
        money: 60,
        blind_score: 200,
        blind_target: 1000,
        blind_failed: false,
        blind_cleared: false,
    };
    let target = TargetConfig {
        target_score: Some(200),
        target_ante: Some(2),
        target_money: Some(60),
        stop_on_blind_failed: true,
    };
    assert_eq!(target_reached(metrics, target), false);
}

#[test]
fn target_case_28() {
    let metrics = EvalMetrics {
        ante: 1,
        money: 60,
        blind_score: 500,
        blind_target: 1000,
        blind_failed: false,
        blind_cleared: false,
    };
    let target = TargetConfig {
        target_score: Some(500),
        target_ante: Some(1),
        target_money: Some(60),
        stop_on_blind_failed: true,
    };
    assert_eq!(target_reached(metrics, target), true);
}

#[test]
fn target_case_29() {
    let metrics = EvalMetrics {
        ante: 1,
        money: 60,
        blind_score: 500,
        blind_target: 1000,
        blind_failed: false,
        blind_cleared: false,
    };
    let target = TargetConfig {
        target_score: Some(500),
        target_ante: Some(2),
        target_money: Some(60),
        stop_on_blind_failed: true,
    };
    assert_eq!(target_reached(metrics, target), false);
}

#[test]
fn target_case_30() {
    let metrics = EvalMetrics {
        ante: 1,
        money: 60,
        blind_score: 1000,
        blind_target: 1000,
        blind_failed: false,
        blind_cleared: false,
    };
    let target = TargetConfig {
        target_score: Some(1000),
        target_ante: Some(1),
        target_money: Some(60),
        stop_on_blind_failed: true,
    };
    assert_eq!(target_reached(metrics, target), true);
}

#[test]
fn target_case_31() {
    let metrics = EvalMetrics {
        ante: 1,
        money: 60,
        blind_score: 1000,
        blind_target: 1000,
        blind_failed: false,
        blind_cleared: false,
    };
    let target = TargetConfig {
        target_score: Some(1000),
        target_ante: Some(2),
        target_money: Some(60),
        stop_on_blind_failed: true,
    };
    assert_eq!(target_reached(metrics, target), false);
}

#[test]
fn target_case_32() {
    let metrics = EvalMetrics {
        ante: 1,
        money: 100,
        blind_score: 0,
        blind_target: 1000,
        blind_failed: false,
        blind_cleared: false,
    };
    let target = TargetConfig {
        target_score: Some(0),
        target_ante: Some(1),
        target_money: Some(100),
        stop_on_blind_failed: true,
    };
    assert_eq!(target_reached(metrics, target), true);
}

#[test]
fn target_case_33() {
    let metrics = EvalMetrics {
        ante: 1,
        money: 100,
        blind_score: 0,
        blind_target: 1000,
        blind_failed: false,
        blind_cleared: false,
    };
    let target = TargetConfig {
        target_score: Some(0),
        target_ante: Some(2),
        target_money: Some(100),
        stop_on_blind_failed: true,
    };
    assert_eq!(target_reached(metrics, target), false);
}

#[test]
fn target_case_34() {
    let metrics = EvalMetrics {
        ante: 1,
        money: 100,
        blind_score: 200,
        blind_target: 1000,
        blind_failed: false,
        blind_cleared: false,
    };
    let target = TargetConfig {
        target_score: Some(200),
        target_ante: Some(1),
        target_money: Some(100),
        stop_on_blind_failed: true,
    };
    assert_eq!(target_reached(metrics, target), true);
}

#[test]
fn target_case_35() {
    let metrics = EvalMetrics {
        ante: 1,
        money: 100,
        blind_score: 200,
        blind_target: 1000,
        blind_failed: false,
        blind_cleared: false,
    };
    let target = TargetConfig {
        target_score: Some(200),
        target_ante: Some(2),
        target_money: Some(100),
        stop_on_blind_failed: true,
    };
    assert_eq!(target_reached(metrics, target), false);
}

#[test]
fn target_case_36() {
    let metrics = EvalMetrics {
        ante: 1,
        money: 100,
        blind_score: 500,
        blind_target: 1000,
        blind_failed: false,
        blind_cleared: false,
    };
    let target = TargetConfig {
        target_score: Some(500),
        target_ante: Some(1),
        target_money: Some(100),
        stop_on_blind_failed: true,
    };
    assert_eq!(target_reached(metrics, target), true);
}

#[test]
fn target_case_37() {
    let metrics = EvalMetrics {
        ante: 1,
        money: 100,
        blind_score: 500,
        blind_target: 1000,
        blind_failed: false,
        blind_cleared: false,
    };
    let target = TargetConfig {
        target_score: Some(500),
        target_ante: Some(2),
        target_money: Some(100),
        stop_on_blind_failed: true,
    };
    assert_eq!(target_reached(metrics, target), false);
}

#[test]
fn target_case_38() {
    let metrics = EvalMetrics {
        ante: 1,
        money: 100,
        blind_score: 1000,
        blind_target: 1000,
        blind_failed: false,
        blind_cleared: false,
    };
    let target = TargetConfig {
        target_score: Some(1000),
        target_ante: Some(1),
        target_money: Some(100),
        stop_on_blind_failed: true,
    };
    assert_eq!(target_reached(metrics, target), true);
}

#[test]
fn target_case_39() {
    let metrics = EvalMetrics {
        ante: 1,
        money: 100,
        blind_score: 1000,
        blind_target: 1000,
        blind_failed: false,
        blind_cleared: false,
    };
    let target = TargetConfig {
        target_score: Some(1000),
        target_ante: Some(2),
        target_money: Some(100),
        stop_on_blind_failed: true,
    };
    assert_eq!(target_reached(metrics, target), false);
}

#[test]
fn target_case_40() {
    let metrics = EvalMetrics {
        ante: 2,
        money: 0,
        blind_score: 0,
        blind_target: 1000,
        blind_failed: false,
        blind_cleared: false,
    };
    let target = TargetConfig {
        target_score: Some(0),
        target_ante: Some(2),
        target_money: Some(0),
        stop_on_blind_failed: true,
    };
    assert_eq!(target_reached(metrics, target), true);
}

#[test]
fn target_case_41() {
    let metrics = EvalMetrics {
        ante: 2,
        money: 0,
        blind_score: 0,
        blind_target: 1000,
        blind_failed: false,
        blind_cleared: false,
    };
    let target = TargetConfig {
        target_score: Some(0),
        target_ante: Some(3),
        target_money: Some(0),
        stop_on_blind_failed: true,
    };
    assert_eq!(target_reached(metrics, target), false);
}

#[test]
fn target_case_42() {
    let metrics = EvalMetrics {
        ante: 2,
        money: 0,
        blind_score: 200,
        blind_target: 1000,
        blind_failed: false,
        blind_cleared: false,
    };
    let target = TargetConfig {
        target_score: Some(200),
        target_ante: Some(2),
        target_money: Some(0),
        stop_on_blind_failed: true,
    };
    assert_eq!(target_reached(metrics, target), true);
}

#[test]
fn target_case_43() {
    let metrics = EvalMetrics {
        ante: 2,
        money: 0,
        blind_score: 200,
        blind_target: 1000,
        blind_failed: false,
        blind_cleared: false,
    };
    let target = TargetConfig {
        target_score: Some(200),
        target_ante: Some(3),
        target_money: Some(0),
        stop_on_blind_failed: true,
    };
    assert_eq!(target_reached(metrics, target), false);
}

#[test]
fn target_case_44() {
    let metrics = EvalMetrics {
        ante: 2,
        money: 0,
        blind_score: 500,
        blind_target: 1000,
        blind_failed: false,
        blind_cleared: false,
    };
    let target = TargetConfig {
        target_score: Some(500),
        target_ante: Some(2),
        target_money: Some(0),
        stop_on_blind_failed: true,
    };
    assert_eq!(target_reached(metrics, target), true);
}

#[test]
fn target_case_45() {
    let metrics = EvalMetrics {
        ante: 2,
        money: 0,
        blind_score: 500,
        blind_target: 1000,
        blind_failed: false,
        blind_cleared: false,
    };
    let target = TargetConfig {
        target_score: Some(500),
        target_ante: Some(3),
        target_money: Some(0),
        stop_on_blind_failed: true,
    };
    assert_eq!(target_reached(metrics, target), false);
}

#[test]
fn target_case_46() {
    let metrics = EvalMetrics {
        ante: 2,
        money: 0,
        blind_score: 1000,
        blind_target: 1000,
        blind_failed: false,
        blind_cleared: false,
    };
    let target = TargetConfig {
        target_score: Some(1000),
        target_ante: Some(2),
        target_money: Some(0),
        stop_on_blind_failed: true,
    };
    assert_eq!(target_reached(metrics, target), true);
}

#[test]
fn target_case_47() {
    let metrics = EvalMetrics {
        ante: 2,
        money: 0,
        blind_score: 1000,
        blind_target: 1000,
        blind_failed: false,
        blind_cleared: false,
    };
    let target = TargetConfig {
        target_score: Some(1000),
        target_ante: Some(3),
        target_money: Some(0),
        stop_on_blind_failed: true,
    };
    assert_eq!(target_reached(metrics, target), false);
}

#[test]
fn target_case_48() {
    let metrics = EvalMetrics {
        ante: 2,
        money: 10,
        blind_score: 0,
        blind_target: 1000,
        blind_failed: false,
        blind_cleared: false,
    };
    let target = TargetConfig {
        target_score: Some(0),
        target_ante: Some(2),
        target_money: Some(10),
        stop_on_blind_failed: true,
    };
    assert_eq!(target_reached(metrics, target), true);
}

#[test]
fn target_case_49() {
    let metrics = EvalMetrics {
        ante: 2,
        money: 10,
        blind_score: 0,
        blind_target: 1000,
        blind_failed: false,
        blind_cleared: false,
    };
    let target = TargetConfig {
        target_score: Some(0),
        target_ante: Some(3),
        target_money: Some(10),
        stop_on_blind_failed: true,
    };
    assert_eq!(target_reached(metrics, target), false);
}

#[test]
fn target_case_50() {
    let metrics = EvalMetrics {
        ante: 2,
        money: 10,
        blind_score: 200,
        blind_target: 1000,
        blind_failed: false,
        blind_cleared: false,
    };
    let target = TargetConfig {
        target_score: Some(200),
        target_ante: Some(2),
        target_money: Some(10),
        stop_on_blind_failed: true,
    };
    assert_eq!(target_reached(metrics, target), true);
}

#[test]
fn target_case_51() {
    let metrics = EvalMetrics {
        ante: 2,
        money: 10,
        blind_score: 200,
        blind_target: 1000,
        blind_failed: false,
        blind_cleared: false,
    };
    let target = TargetConfig {
        target_score: Some(200),
        target_ante: Some(3),
        target_money: Some(10),
        stop_on_blind_failed: true,
    };
    assert_eq!(target_reached(metrics, target), false);
}

#[test]
fn target_case_52() {
    let metrics = EvalMetrics {
        ante: 2,
        money: 10,
        blind_score: 500,
        blind_target: 1000,
        blind_failed: false,
        blind_cleared: false,
    };
    let target = TargetConfig {
        target_score: Some(500),
        target_ante: Some(2),
        target_money: Some(10),
        stop_on_blind_failed: true,
    };
    assert_eq!(target_reached(metrics, target), true);
}

#[test]
fn target_case_53() {
    let metrics = EvalMetrics {
        ante: 2,
        money: 10,
        blind_score: 500,
        blind_target: 1000,
        blind_failed: false,
        blind_cleared: false,
    };
    let target = TargetConfig {
        target_score: Some(500),
        target_ante: Some(3),
        target_money: Some(10),
        stop_on_blind_failed: true,
    };
    assert_eq!(target_reached(metrics, target), false);
}

#[test]
fn target_case_54() {
    let metrics = EvalMetrics {
        ante: 2,
        money: 10,
        blind_score: 1000,
        blind_target: 1000,
        blind_failed: false,
        blind_cleared: false,
    };
    let target = TargetConfig {
        target_score: Some(1000),
        target_ante: Some(2),
        target_money: Some(10),
        stop_on_blind_failed: true,
    };
    assert_eq!(target_reached(metrics, target), true);
}

#[test]
fn target_case_55() {
    let metrics = EvalMetrics {
        ante: 2,
        money: 10,
        blind_score: 1000,
        blind_target: 1000,
        blind_failed: false,
        blind_cleared: false,
    };
    let target = TargetConfig {
        target_score: Some(1000),
        target_ante: Some(3),
        target_money: Some(10),
        stop_on_blind_failed: true,
    };
    assert_eq!(target_reached(metrics, target), false);
}

#[test]
fn target_case_56() {
    let metrics = EvalMetrics {
        ante: 2,
        money: 30,
        blind_score: 0,
        blind_target: 1000,
        blind_failed: false,
        blind_cleared: false,
    };
    let target = TargetConfig {
        target_score: Some(0),
        target_ante: Some(2),
        target_money: Some(30),
        stop_on_blind_failed: true,
    };
    assert_eq!(target_reached(metrics, target), true);
}

#[test]
fn target_case_57() {
    let metrics = EvalMetrics {
        ante: 2,
        money: 30,
        blind_score: 0,
        blind_target: 1000,
        blind_failed: false,
        blind_cleared: false,
    };
    let target = TargetConfig {
        target_score: Some(0),
        target_ante: Some(3),
        target_money: Some(30),
        stop_on_blind_failed: true,
    };
    assert_eq!(target_reached(metrics, target), false);
}

#[test]
fn target_case_58() {
    let metrics = EvalMetrics {
        ante: 2,
        money: 30,
        blind_score: 200,
        blind_target: 1000,
        blind_failed: false,
        blind_cleared: false,
    };
    let target = TargetConfig {
        target_score: Some(200),
        target_ante: Some(2),
        target_money: Some(30),
        stop_on_blind_failed: true,
    };
    assert_eq!(target_reached(metrics, target), true);
}

#[test]
fn target_case_59() {
    let metrics = EvalMetrics {
        ante: 2,
        money: 30,
        blind_score: 200,
        blind_target: 1000,
        blind_failed: false,
        blind_cleared: false,
    };
    let target = TargetConfig {
        target_score: Some(200),
        target_ante: Some(3),
        target_money: Some(30),
        stop_on_blind_failed: true,
    };
    assert_eq!(target_reached(metrics, target), false);
}

#[test]
fn target_case_60() {
    let metrics = EvalMetrics {
        ante: 2,
        money: 30,
        blind_score: 500,
        blind_target: 1000,
        blind_failed: false,
        blind_cleared: false,
    };
    let target = TargetConfig {
        target_score: Some(500),
        target_ante: Some(2),
        target_money: Some(30),
        stop_on_blind_failed: true,
    };
    assert_eq!(target_reached(metrics, target), true);
}

#[test]
fn target_case_61() {
    let metrics = EvalMetrics {
        ante: 2,
        money: 30,
        blind_score: 500,
        blind_target: 1000,
        blind_failed: false,
        blind_cleared: false,
    };
    let target = TargetConfig {
        target_score: Some(500),
        target_ante: Some(3),
        target_money: Some(30),
        stop_on_blind_failed: true,
    };
    assert_eq!(target_reached(metrics, target), false);
}

#[test]
fn target_case_62() {
    let metrics = EvalMetrics {
        ante: 2,
        money: 30,
        blind_score: 1000,
        blind_target: 1000,
        blind_failed: false,
        blind_cleared: false,
    };
    let target = TargetConfig {
        target_score: Some(1000),
        target_ante: Some(2),
        target_money: Some(30),
        stop_on_blind_failed: true,
    };
    assert_eq!(target_reached(metrics, target), true);
}

#[test]
fn target_case_63() {
    let metrics = EvalMetrics {
        ante: 2,
        money: 30,
        blind_score: 1000,
        blind_target: 1000,
        blind_failed: false,
        blind_cleared: false,
    };
    let target = TargetConfig {
        target_score: Some(1000),
        target_ante: Some(3),
        target_money: Some(30),
        stop_on_blind_failed: true,
    };
    assert_eq!(target_reached(metrics, target), false);
}

#[test]
fn target_case_64() {
    let metrics = EvalMetrics {
        ante: 2,
        money: 60,
        blind_score: 0,
        blind_target: 1000,
        blind_failed: false,
        blind_cleared: false,
    };
    let target = TargetConfig {
        target_score: Some(0),
        target_ante: Some(2),
        target_money: Some(60),
        stop_on_blind_failed: true,
    };
    assert_eq!(target_reached(metrics, target), true);
}

#[test]
fn target_case_65() {
    let metrics = EvalMetrics {
        ante: 2,
        money: 60,
        blind_score: 0,
        blind_target: 1000,
        blind_failed: false,
        blind_cleared: false,
    };
    let target = TargetConfig {
        target_score: Some(0),
        target_ante: Some(3),
        target_money: Some(60),
        stop_on_blind_failed: true,
    };
    assert_eq!(target_reached(metrics, target), false);
}

#[test]
fn target_case_66() {
    let metrics = EvalMetrics {
        ante: 2,
        money: 60,
        blind_score: 200,
        blind_target: 1000,
        blind_failed: false,
        blind_cleared: false,
    };
    let target = TargetConfig {
        target_score: Some(200),
        target_ante: Some(2),
        target_money: Some(60),
        stop_on_blind_failed: true,
    };
    assert_eq!(target_reached(metrics, target), true);
}

#[test]
fn target_case_67() {
    let metrics = EvalMetrics {
        ante: 2,
        money: 60,
        blind_score: 200,
        blind_target: 1000,
        blind_failed: false,
        blind_cleared: false,
    };
    let target = TargetConfig {
        target_score: Some(200),
        target_ante: Some(3),
        target_money: Some(60),
        stop_on_blind_failed: true,
    };
    assert_eq!(target_reached(metrics, target), false);
}

#[test]
fn target_case_68() {
    let metrics = EvalMetrics {
        ante: 2,
        money: 60,
        blind_score: 500,
        blind_target: 1000,
        blind_failed: false,
        blind_cleared: false,
    };
    let target = TargetConfig {
        target_score: Some(500),
        target_ante: Some(2),
        target_money: Some(60),
        stop_on_blind_failed: true,
    };
    assert_eq!(target_reached(metrics, target), true);
}

#[test]
fn target_case_69() {
    let metrics = EvalMetrics {
        ante: 2,
        money: 60,
        blind_score: 500,
        blind_target: 1000,
        blind_failed: false,
        blind_cleared: false,
    };
    let target = TargetConfig {
        target_score: Some(500),
        target_ante: Some(3),
        target_money: Some(60),
        stop_on_blind_failed: true,
    };
    assert_eq!(target_reached(metrics, target), false);
}

#[test]
fn target_case_70() {
    let metrics = EvalMetrics {
        ante: 2,
        money: 60,
        blind_score: 1000,
        blind_target: 1000,
        blind_failed: false,
        blind_cleared: false,
    };
    let target = TargetConfig {
        target_score: Some(1000),
        target_ante: Some(2),
        target_money: Some(60),
        stop_on_blind_failed: true,
    };
    assert_eq!(target_reached(metrics, target), true);
}

#[test]
fn target_case_71() {
    let metrics = EvalMetrics {
        ante: 2,
        money: 60,
        blind_score: 1000,
        blind_target: 1000,
        blind_failed: false,
        blind_cleared: false,
    };
    let target = TargetConfig {
        target_score: Some(1000),
        target_ante: Some(3),
        target_money: Some(60),
        stop_on_blind_failed: true,
    };
    assert_eq!(target_reached(metrics, target), false);
}

#[test]
fn target_case_72() {
    let metrics = EvalMetrics {
        ante: 2,
        money: 100,
        blind_score: 0,
        blind_target: 1000,
        blind_failed: false,
        blind_cleared: false,
    };
    let target = TargetConfig {
        target_score: Some(0),
        target_ante: Some(2),
        target_money: Some(100),
        stop_on_blind_failed: true,
    };
    assert_eq!(target_reached(metrics, target), true);
}

#[test]
fn target_case_73() {
    let metrics = EvalMetrics {
        ante: 2,
        money: 100,
        blind_score: 0,
        blind_target: 1000,
        blind_failed: false,
        blind_cleared: false,
    };
    let target = TargetConfig {
        target_score: Some(0),
        target_ante: Some(3),
        target_money: Some(100),
        stop_on_blind_failed: true,
    };
    assert_eq!(target_reached(metrics, target), false);
}

#[test]
fn target_case_74() {
    let metrics = EvalMetrics {
        ante: 2,
        money: 100,
        blind_score: 200,
        blind_target: 1000,
        blind_failed: false,
        blind_cleared: false,
    };
    let target = TargetConfig {
        target_score: Some(200),
        target_ante: Some(2),
        target_money: Some(100),
        stop_on_blind_failed: true,
    };
    assert_eq!(target_reached(metrics, target), true);
}

#[test]
fn target_case_75() {
    let metrics = EvalMetrics {
        ante: 2,
        money: 100,
        blind_score: 200,
        blind_target: 1000,
        blind_failed: false,
        blind_cleared: false,
    };
    let target = TargetConfig {
        target_score: Some(200),
        target_ante: Some(3),
        target_money: Some(100),
        stop_on_blind_failed: true,
    };
    assert_eq!(target_reached(metrics, target), false);
}

#[test]
fn target_case_76() {
    let metrics = EvalMetrics {
        ante: 2,
        money: 100,
        blind_score: 500,
        blind_target: 1000,
        blind_failed: false,
        blind_cleared: false,
    };
    let target = TargetConfig {
        target_score: Some(500),
        target_ante: Some(2),
        target_money: Some(100),
        stop_on_blind_failed: true,
    };
    assert_eq!(target_reached(metrics, target), true);
}

#[test]
fn target_case_77() {
    let metrics = EvalMetrics {
        ante: 2,
        money: 100,
        blind_score: 500,
        blind_target: 1000,
        blind_failed: false,
        blind_cleared: false,
    };
    let target = TargetConfig {
        target_score: Some(500),
        target_ante: Some(3),
        target_money: Some(100),
        stop_on_blind_failed: true,
    };
    assert_eq!(target_reached(metrics, target), false);
}

#[test]
fn target_case_78() {
    let metrics = EvalMetrics {
        ante: 2,
        money: 100,
        blind_score: 1000,
        blind_target: 1000,
        blind_failed: false,
        blind_cleared: false,
    };
    let target = TargetConfig {
        target_score: Some(1000),
        target_ante: Some(2),
        target_money: Some(100),
        stop_on_blind_failed: true,
    };
    assert_eq!(target_reached(metrics, target), true);
}

#[test]
fn target_case_79() {
    let metrics = EvalMetrics {
        ante: 2,
        money: 100,
        blind_score: 1000,
        blind_target: 1000,
        blind_failed: false,
        blind_cleared: false,
    };
    let target = TargetConfig {
        target_score: Some(1000),
        target_ante: Some(3),
        target_money: Some(100),
        stop_on_blind_failed: true,
    };
    assert_eq!(target_reached(metrics, target), false);
}

#[test]
fn target_case_80() {
    let metrics = EvalMetrics {
        ante: 3,
        money: 0,
        blind_score: 0,
        blind_target: 1000,
        blind_failed: false,
        blind_cleared: false,
    };
    let target = TargetConfig {
        target_score: Some(0),
        target_ante: Some(3),
        target_money: Some(0),
        stop_on_blind_failed: true,
    };
    assert_eq!(target_reached(metrics, target), true);
}

#[test]
fn target_case_81() {
    let metrics = EvalMetrics {
        ante: 3,
        money: 0,
        blind_score: 0,
        blind_target: 1000,
        blind_failed: false,
        blind_cleared: false,
    };
    let target = TargetConfig {
        target_score: Some(0),
        target_ante: Some(4),
        target_money: Some(0),
        stop_on_blind_failed: true,
    };
    assert_eq!(target_reached(metrics, target), false);
}

#[test]
fn target_case_82() {
    let metrics = EvalMetrics {
        ante: 3,
        money: 0,
        blind_score: 200,
        blind_target: 1000,
        blind_failed: false,
        blind_cleared: false,
    };
    let target = TargetConfig {
        target_score: Some(200),
        target_ante: Some(3),
        target_money: Some(0),
        stop_on_blind_failed: true,
    };
    assert_eq!(target_reached(metrics, target), true);
}

#[test]
fn target_case_83() {
    let metrics = EvalMetrics {
        ante: 3,
        money: 0,
        blind_score: 200,
        blind_target: 1000,
        blind_failed: false,
        blind_cleared: false,
    };
    let target = TargetConfig {
        target_score: Some(200),
        target_ante: Some(4),
        target_money: Some(0),
        stop_on_blind_failed: true,
    };
    assert_eq!(target_reached(metrics, target), false);
}

#[test]
fn target_case_84() {
    let metrics = EvalMetrics {
        ante: 3,
        money: 0,
        blind_score: 500,
        blind_target: 1000,
        blind_failed: false,
        blind_cleared: false,
    };
    let target = TargetConfig {
        target_score: Some(500),
        target_ante: Some(3),
        target_money: Some(0),
        stop_on_blind_failed: true,
    };
    assert_eq!(target_reached(metrics, target), true);
}

#[test]
fn target_case_85() {
    let metrics = EvalMetrics {
        ante: 3,
        money: 0,
        blind_score: 500,
        blind_target: 1000,
        blind_failed: false,
        blind_cleared: false,
    };
    let target = TargetConfig {
        target_score: Some(500),
        target_ante: Some(4),
        target_money: Some(0),
        stop_on_blind_failed: true,
    };
    assert_eq!(target_reached(metrics, target), false);
}

#[test]
fn target_case_86() {
    let metrics = EvalMetrics {
        ante: 3,
        money: 0,
        blind_score: 1000,
        blind_target: 1000,
        blind_failed: false,
        blind_cleared: false,
    };
    let target = TargetConfig {
        target_score: Some(1000),
        target_ante: Some(3),
        target_money: Some(0),
        stop_on_blind_failed: true,
    };
    assert_eq!(target_reached(metrics, target), true);
}

#[test]
fn target_case_87() {
    let metrics = EvalMetrics {
        ante: 3,
        money: 0,
        blind_score: 1000,
        blind_target: 1000,
        blind_failed: false,
        blind_cleared: false,
    };
    let target = TargetConfig {
        target_score: Some(1000),
        target_ante: Some(4),
        target_money: Some(0),
        stop_on_blind_failed: true,
    };
    assert_eq!(target_reached(metrics, target), false);
}

#[test]
fn target_case_88() {
    let metrics = EvalMetrics {
        ante: 3,
        money: 10,
        blind_score: 0,
        blind_target: 1000,
        blind_failed: false,
        blind_cleared: false,
    };
    let target = TargetConfig {
        target_score: Some(0),
        target_ante: Some(3),
        target_money: Some(10),
        stop_on_blind_failed: true,
    };
    assert_eq!(target_reached(metrics, target), true);
}

#[test]
fn target_case_89() {
    let metrics = EvalMetrics {
        ante: 3,
        money: 10,
        blind_score: 0,
        blind_target: 1000,
        blind_failed: false,
        blind_cleared: false,
    };
    let target = TargetConfig {
        target_score: Some(0),
        target_ante: Some(4),
        target_money: Some(10),
        stop_on_blind_failed: true,
    };
    assert_eq!(target_reached(metrics, target), false);
}

#[test]
fn target_case_90() {
    let metrics = EvalMetrics {
        ante: 3,
        money: 10,
        blind_score: 200,
        blind_target: 1000,
        blind_failed: false,
        blind_cleared: false,
    };
    let target = TargetConfig {
        target_score: Some(200),
        target_ante: Some(3),
        target_money: Some(10),
        stop_on_blind_failed: true,
    };
    assert_eq!(target_reached(metrics, target), true);
}

#[test]
fn target_case_91() {
    let metrics = EvalMetrics {
        ante: 3,
        money: 10,
        blind_score: 200,
        blind_target: 1000,
        blind_failed: false,
        blind_cleared: false,
    };
    let target = TargetConfig {
        target_score: Some(200),
        target_ante: Some(4),
        target_money: Some(10),
        stop_on_blind_failed: true,
    };
    assert_eq!(target_reached(metrics, target), false);
}

#[test]
fn target_case_92() {
    let metrics = EvalMetrics {
        ante: 3,
        money: 10,
        blind_score: 500,
        blind_target: 1000,
        blind_failed: false,
        blind_cleared: false,
    };
    let target = TargetConfig {
        target_score: Some(500),
        target_ante: Some(3),
        target_money: Some(10),
        stop_on_blind_failed: true,
    };
    assert_eq!(target_reached(metrics, target), true);
}

#[test]
fn target_case_93() {
    let metrics = EvalMetrics {
        ante: 3,
        money: 10,
        blind_score: 500,
        blind_target: 1000,
        blind_failed: false,
        blind_cleared: false,
    };
    let target = TargetConfig {
        target_score: Some(500),
        target_ante: Some(4),
        target_money: Some(10),
        stop_on_blind_failed: true,
    };
    assert_eq!(target_reached(metrics, target), false);
}

#[test]
fn target_case_94() {
    let metrics = EvalMetrics {
        ante: 3,
        money: 10,
        blind_score: 1000,
        blind_target: 1000,
        blind_failed: false,
        blind_cleared: false,
    };
    let target = TargetConfig {
        target_score: Some(1000),
        target_ante: Some(3),
        target_money: Some(10),
        stop_on_blind_failed: true,
    };
    assert_eq!(target_reached(metrics, target), true);
}

#[test]
fn target_case_95() {
    let metrics = EvalMetrics {
        ante: 3,
        money: 10,
        blind_score: 1000,
        blind_target: 1000,
        blind_failed: false,
        blind_cleared: false,
    };
    let target = TargetConfig {
        target_score: Some(1000),
        target_ante: Some(4),
        target_money: Some(10),
        stop_on_blind_failed: true,
    };
    assert_eq!(target_reached(metrics, target), false);
}

#[test]
fn target_case_96() {
    let metrics = EvalMetrics {
        ante: 3,
        money: 30,
        blind_score: 0,
        blind_target: 1000,
        blind_failed: false,
        blind_cleared: false,
    };
    let target = TargetConfig {
        target_score: Some(0),
        target_ante: Some(3),
        target_money: Some(30),
        stop_on_blind_failed: true,
    };
    assert_eq!(target_reached(metrics, target), true);
}

#[test]
fn target_case_97() {
    let metrics = EvalMetrics {
        ante: 3,
        money: 30,
        blind_score: 0,
        blind_target: 1000,
        blind_failed: false,
        blind_cleared: false,
    };
    let target = TargetConfig {
        target_score: Some(0),
        target_ante: Some(4),
        target_money: Some(30),
        stop_on_blind_failed: true,
    };
    assert_eq!(target_reached(metrics, target), false);
}

#[test]
fn target_case_98() {
    let metrics = EvalMetrics {
        ante: 3,
        money: 30,
        blind_score: 200,
        blind_target: 1000,
        blind_failed: false,
        blind_cleared: false,
    };
    let target = TargetConfig {
        target_score: Some(200),
        target_ante: Some(3),
        target_money: Some(30),
        stop_on_blind_failed: true,
    };
    assert_eq!(target_reached(metrics, target), true);
}

#[test]
fn target_case_99() {
    let metrics = EvalMetrics {
        ante: 3,
        money: 30,
        blind_score: 200,
        blind_target: 1000,
        blind_failed: false,
        blind_cleared: false,
    };
    let target = TargetConfig {
        target_score: Some(200),
        target_ante: Some(4),
        target_money: Some(30),
        stop_on_blind_failed: true,
    };
    assert_eq!(target_reached(metrics, target), false);
}

#[test]
fn target_case_100() {
    let metrics = EvalMetrics {
        ante: 3,
        money: 30,
        blind_score: 500,
        blind_target: 1000,
        blind_failed: false,
        blind_cleared: false,
    };
    let target = TargetConfig {
        target_score: Some(500),
        target_ante: Some(3),
        target_money: Some(30),
        stop_on_blind_failed: true,
    };
    assert_eq!(target_reached(metrics, target), true);
}

#[test]
fn target_case_101() {
    let metrics = EvalMetrics {
        ante: 3,
        money: 30,
        blind_score: 500,
        blind_target: 1000,
        blind_failed: false,
        blind_cleared: false,
    };
    let target = TargetConfig {
        target_score: Some(500),
        target_ante: Some(4),
        target_money: Some(30),
        stop_on_blind_failed: true,
    };
    assert_eq!(target_reached(metrics, target), false);
}

#[test]
fn target_case_102() {
    let metrics = EvalMetrics {
        ante: 3,
        money: 30,
        blind_score: 1000,
        blind_target: 1000,
        blind_failed: false,
        blind_cleared: false,
    };
    let target = TargetConfig {
        target_score: Some(1000),
        target_ante: Some(3),
        target_money: Some(30),
        stop_on_blind_failed: true,
    };
    assert_eq!(target_reached(metrics, target), true);
}

#[test]
fn target_case_103() {
    let metrics = EvalMetrics {
        ante: 3,
        money: 30,
        blind_score: 1000,
        blind_target: 1000,
        blind_failed: false,
        blind_cleared: false,
    };
    let target = TargetConfig {
        target_score: Some(1000),
        target_ante: Some(4),
        target_money: Some(30),
        stop_on_blind_failed: true,
    };
    assert_eq!(target_reached(metrics, target), false);
}

#[test]
fn target_case_104() {
    let metrics = EvalMetrics {
        ante: 3,
        money: 60,
        blind_score: 0,
        blind_target: 1000,
        blind_failed: false,
        blind_cleared: false,
    };
    let target = TargetConfig {
        target_score: Some(0),
        target_ante: Some(3),
        target_money: Some(60),
        stop_on_blind_failed: true,
    };
    assert_eq!(target_reached(metrics, target), true);
}

#[test]
fn target_case_105() {
    let metrics = EvalMetrics {
        ante: 3,
        money: 60,
        blind_score: 0,
        blind_target: 1000,
        blind_failed: false,
        blind_cleared: false,
    };
    let target = TargetConfig {
        target_score: Some(0),
        target_ante: Some(4),
        target_money: Some(60),
        stop_on_blind_failed: true,
    };
    assert_eq!(target_reached(metrics, target), false);
}

#[test]
fn target_case_106() {
    let metrics = EvalMetrics {
        ante: 3,
        money: 60,
        blind_score: 200,
        blind_target: 1000,
        blind_failed: false,
        blind_cleared: false,
    };
    let target = TargetConfig {
        target_score: Some(200),
        target_ante: Some(3),
        target_money: Some(60),
        stop_on_blind_failed: true,
    };
    assert_eq!(target_reached(metrics, target), true);
}

#[test]
fn target_case_107() {
    let metrics = EvalMetrics {
        ante: 3,
        money: 60,
        blind_score: 200,
        blind_target: 1000,
        blind_failed: false,
        blind_cleared: false,
    };
    let target = TargetConfig {
        target_score: Some(200),
        target_ante: Some(4),
        target_money: Some(60),
        stop_on_blind_failed: true,
    };
    assert_eq!(target_reached(metrics, target), false);
}

#[test]
fn target_case_108() {
    let metrics = EvalMetrics {
        ante: 3,
        money: 60,
        blind_score: 500,
        blind_target: 1000,
        blind_failed: false,
        blind_cleared: false,
    };
    let target = TargetConfig {
        target_score: Some(500),
        target_ante: Some(3),
        target_money: Some(60),
        stop_on_blind_failed: true,
    };
    assert_eq!(target_reached(metrics, target), true);
}

#[test]
fn target_case_109() {
    let metrics = EvalMetrics {
        ante: 3,
        money: 60,
        blind_score: 500,
        blind_target: 1000,
        blind_failed: false,
        blind_cleared: false,
    };
    let target = TargetConfig {
        target_score: Some(500),
        target_ante: Some(4),
        target_money: Some(60),
        stop_on_blind_failed: true,
    };
    assert_eq!(target_reached(metrics, target), false);
}

#[test]
fn target_case_110() {
    let metrics = EvalMetrics {
        ante: 3,
        money: 60,
        blind_score: 1000,
        blind_target: 1000,
        blind_failed: false,
        blind_cleared: false,
    };
    let target = TargetConfig {
        target_score: Some(1000),
        target_ante: Some(3),
        target_money: Some(60),
        stop_on_blind_failed: true,
    };
    assert_eq!(target_reached(metrics, target), true);
}

#[test]
fn target_case_111() {
    let metrics = EvalMetrics {
        ante: 3,
        money: 60,
        blind_score: 1000,
        blind_target: 1000,
        blind_failed: false,
        blind_cleared: false,
    };
    let target = TargetConfig {
        target_score: Some(1000),
        target_ante: Some(4),
        target_money: Some(60),
        stop_on_blind_failed: true,
    };
    assert_eq!(target_reached(metrics, target), false);
}

#[test]
fn target_case_112() {
    let metrics = EvalMetrics {
        ante: 3,
        money: 100,
        blind_score: 0,
        blind_target: 1000,
        blind_failed: false,
        blind_cleared: false,
    };
    let target = TargetConfig {
        target_score: Some(0),
        target_ante: Some(3),
        target_money: Some(100),
        stop_on_blind_failed: true,
    };
    assert_eq!(target_reached(metrics, target), true);
}

#[test]
fn target_case_113() {
    let metrics = EvalMetrics {
        ante: 3,
        money: 100,
        blind_score: 0,
        blind_target: 1000,
        blind_failed: false,
        blind_cleared: false,
    };
    let target = TargetConfig {
        target_score: Some(0),
        target_ante: Some(4),
        target_money: Some(100),
        stop_on_blind_failed: true,
    };
    assert_eq!(target_reached(metrics, target), false);
}

#[test]
fn target_case_114() {
    let metrics = EvalMetrics {
        ante: 3,
        money: 100,
        blind_score: 200,
        blind_target: 1000,
        blind_failed: false,
        blind_cleared: false,
    };
    let target = TargetConfig {
        target_score: Some(200),
        target_ante: Some(3),
        target_money: Some(100),
        stop_on_blind_failed: true,
    };
    assert_eq!(target_reached(metrics, target), true);
}

#[test]
fn target_case_115() {
    let metrics = EvalMetrics {
        ante: 3,
        money: 100,
        blind_score: 200,
        blind_target: 1000,
        blind_failed: false,
        blind_cleared: false,
    };
    let target = TargetConfig {
        target_score: Some(200),
        target_ante: Some(4),
        target_money: Some(100),
        stop_on_blind_failed: true,
    };
    assert_eq!(target_reached(metrics, target), false);
}

#[test]
fn target_case_116() {
    let metrics = EvalMetrics {
        ante: 3,
        money: 100,
        blind_score: 500,
        blind_target: 1000,
        blind_failed: false,
        blind_cleared: false,
    };
    let target = TargetConfig {
        target_score: Some(500),
        target_ante: Some(3),
        target_money: Some(100),
        stop_on_blind_failed: true,
    };
    assert_eq!(target_reached(metrics, target), true);
}

#[test]
fn target_case_117() {
    let metrics = EvalMetrics {
        ante: 3,
        money: 100,
        blind_score: 500,
        blind_target: 1000,
        blind_failed: false,
        blind_cleared: false,
    };
    let target = TargetConfig {
        target_score: Some(500),
        target_ante: Some(4),
        target_money: Some(100),
        stop_on_blind_failed: true,
    };
    assert_eq!(target_reached(metrics, target), false);
}

#[test]
fn target_case_118() {
    let metrics = EvalMetrics {
        ante: 3,
        money: 100,
        blind_score: 1000,
        blind_target: 1000,
        blind_failed: false,
        blind_cleared: false,
    };
    let target = TargetConfig {
        target_score: Some(1000),
        target_ante: Some(3),
        target_money: Some(100),
        stop_on_blind_failed: true,
    };
    assert_eq!(target_reached(metrics, target), true);
}

#[test]
fn target_case_119() {
    let metrics = EvalMetrics {
        ante: 3,
        money: 100,
        blind_score: 1000,
        blind_target: 1000,
        blind_failed: false,
        blind_cleared: false,
    };
    let target = TargetConfig {
        target_score: Some(1000),
        target_ante: Some(4),
        target_money: Some(100),
        stop_on_blind_failed: true,
    };
    assert_eq!(target_reached(metrics, target), false);
}

#[test]
fn target_case_120() {
    let metrics = EvalMetrics {
        ante: 4,
        money: 0,
        blind_score: 0,
        blind_target: 1000,
        blind_failed: false,
        blind_cleared: false,
    };
    let target = TargetConfig {
        target_score: Some(0),
        target_ante: Some(4),
        target_money: Some(0),
        stop_on_blind_failed: true,
    };
    assert_eq!(target_reached(metrics, target), true);
}

#[test]
fn target_case_121() {
    let metrics = EvalMetrics {
        ante: 4,
        money: 0,
        blind_score: 0,
        blind_target: 1000,
        blind_failed: false,
        blind_cleared: false,
    };
    let target = TargetConfig {
        target_score: Some(0),
        target_ante: Some(5),
        target_money: Some(0),
        stop_on_blind_failed: true,
    };
    assert_eq!(target_reached(metrics, target), false);
}

#[test]
fn target_case_122() {
    let metrics = EvalMetrics {
        ante: 4,
        money: 0,
        blind_score: 200,
        blind_target: 1000,
        blind_failed: false,
        blind_cleared: false,
    };
    let target = TargetConfig {
        target_score: Some(200),
        target_ante: Some(4),
        target_money: Some(0),
        stop_on_blind_failed: true,
    };
    assert_eq!(target_reached(metrics, target), true);
}

#[test]
fn target_case_123() {
    let metrics = EvalMetrics {
        ante: 4,
        money: 0,
        blind_score: 200,
        blind_target: 1000,
        blind_failed: false,
        blind_cleared: false,
    };
    let target = TargetConfig {
        target_score: Some(200),
        target_ante: Some(5),
        target_money: Some(0),
        stop_on_blind_failed: true,
    };
    assert_eq!(target_reached(metrics, target), false);
}

#[test]
fn target_case_124() {
    let metrics = EvalMetrics {
        ante: 4,
        money: 0,
        blind_score: 500,
        blind_target: 1000,
        blind_failed: false,
        blind_cleared: false,
    };
    let target = TargetConfig {
        target_score: Some(500),
        target_ante: Some(4),
        target_money: Some(0),
        stop_on_blind_failed: true,
    };
    assert_eq!(target_reached(metrics, target), true);
}

#[test]
fn target_case_125() {
    let metrics = EvalMetrics {
        ante: 4,
        money: 0,
        blind_score: 500,
        blind_target: 1000,
        blind_failed: false,
        blind_cleared: false,
    };
    let target = TargetConfig {
        target_score: Some(500),
        target_ante: Some(5),
        target_money: Some(0),
        stop_on_blind_failed: true,
    };
    assert_eq!(target_reached(metrics, target), false);
}

#[test]
fn target_case_126() {
    let metrics = EvalMetrics {
        ante: 4,
        money: 0,
        blind_score: 1000,
        blind_target: 1000,
        blind_failed: false,
        blind_cleared: false,
    };
    let target = TargetConfig {
        target_score: Some(1000),
        target_ante: Some(4),
        target_money: Some(0),
        stop_on_blind_failed: true,
    };
    assert_eq!(target_reached(metrics, target), true);
}

#[test]
fn target_case_127() {
    let metrics = EvalMetrics {
        ante: 4,
        money: 0,
        blind_score: 1000,
        blind_target: 1000,
        blind_failed: false,
        blind_cleared: false,
    };
    let target = TargetConfig {
        target_score: Some(1000),
        target_ante: Some(5),
        target_money: Some(0),
        stop_on_blind_failed: true,
    };
    assert_eq!(target_reached(metrics, target), false);
}

#[test]
fn target_case_128() {
    let metrics = EvalMetrics {
        ante: 4,
        money: 10,
        blind_score: 0,
        blind_target: 1000,
        blind_failed: false,
        blind_cleared: false,
    };
    let target = TargetConfig {
        target_score: Some(0),
        target_ante: Some(4),
        target_money: Some(10),
        stop_on_blind_failed: true,
    };
    assert_eq!(target_reached(metrics, target), true);
}

#[test]
fn target_case_129() {
    let metrics = EvalMetrics {
        ante: 4,
        money: 10,
        blind_score: 0,
        blind_target: 1000,
        blind_failed: false,
        blind_cleared: false,
    };
    let target = TargetConfig {
        target_score: Some(0),
        target_ante: Some(5),
        target_money: Some(10),
        stop_on_blind_failed: true,
    };
    assert_eq!(target_reached(metrics, target), false);
}

#[test]
fn target_case_130() {
    let metrics = EvalMetrics {
        ante: 4,
        money: 10,
        blind_score: 200,
        blind_target: 1000,
        blind_failed: false,
        blind_cleared: false,
    };
    let target = TargetConfig {
        target_score: Some(200),
        target_ante: Some(4),
        target_money: Some(10),
        stop_on_blind_failed: true,
    };
    assert_eq!(target_reached(metrics, target), true);
}

#[test]
fn target_case_131() {
    let metrics = EvalMetrics {
        ante: 4,
        money: 10,
        blind_score: 200,
        blind_target: 1000,
        blind_failed: false,
        blind_cleared: false,
    };
    let target = TargetConfig {
        target_score: Some(200),
        target_ante: Some(5),
        target_money: Some(10),
        stop_on_blind_failed: true,
    };
    assert_eq!(target_reached(metrics, target), false);
}

#[test]
fn target_case_132() {
    let metrics = EvalMetrics {
        ante: 4,
        money: 10,
        blind_score: 500,
        blind_target: 1000,
        blind_failed: false,
        blind_cleared: false,
    };
    let target = TargetConfig {
        target_score: Some(500),
        target_ante: Some(4),
        target_money: Some(10),
        stop_on_blind_failed: true,
    };
    assert_eq!(target_reached(metrics, target), true);
}

#[test]
fn target_case_133() {
    let metrics = EvalMetrics {
        ante: 4,
        money: 10,
        blind_score: 500,
        blind_target: 1000,
        blind_failed: false,
        blind_cleared: false,
    };
    let target = TargetConfig {
        target_score: Some(500),
        target_ante: Some(5),
        target_money: Some(10),
        stop_on_blind_failed: true,
    };
    assert_eq!(target_reached(metrics, target), false);
}

#[test]
fn target_case_134() {
    let metrics = EvalMetrics {
        ante: 4,
        money: 10,
        blind_score: 1000,
        blind_target: 1000,
        blind_failed: false,
        blind_cleared: false,
    };
    let target = TargetConfig {
        target_score: Some(1000),
        target_ante: Some(4),
        target_money: Some(10),
        stop_on_blind_failed: true,
    };
    assert_eq!(target_reached(metrics, target), true);
}

#[test]
fn target_case_135() {
    let metrics = EvalMetrics {
        ante: 4,
        money: 10,
        blind_score: 1000,
        blind_target: 1000,
        blind_failed: false,
        blind_cleared: false,
    };
    let target = TargetConfig {
        target_score: Some(1000),
        target_ante: Some(5),
        target_money: Some(10),
        stop_on_blind_failed: true,
    };
    assert_eq!(target_reached(metrics, target), false);
}

#[test]
fn target_case_136() {
    let metrics = EvalMetrics {
        ante: 4,
        money: 30,
        blind_score: 0,
        blind_target: 1000,
        blind_failed: false,
        blind_cleared: false,
    };
    let target = TargetConfig {
        target_score: Some(0),
        target_ante: Some(4),
        target_money: Some(30),
        stop_on_blind_failed: true,
    };
    assert_eq!(target_reached(metrics, target), true);
}

#[test]
fn target_case_137() {
    let metrics = EvalMetrics {
        ante: 4,
        money: 30,
        blind_score: 0,
        blind_target: 1000,
        blind_failed: false,
        blind_cleared: false,
    };
    let target = TargetConfig {
        target_score: Some(0),
        target_ante: Some(5),
        target_money: Some(30),
        stop_on_blind_failed: true,
    };
    assert_eq!(target_reached(metrics, target), false);
}

#[test]
fn target_case_138() {
    let metrics = EvalMetrics {
        ante: 4,
        money: 30,
        blind_score: 200,
        blind_target: 1000,
        blind_failed: false,
        blind_cleared: false,
    };
    let target = TargetConfig {
        target_score: Some(200),
        target_ante: Some(4),
        target_money: Some(30),
        stop_on_blind_failed: true,
    };
    assert_eq!(target_reached(metrics, target), true);
}

#[test]
fn target_case_139() {
    let metrics = EvalMetrics {
        ante: 4,
        money: 30,
        blind_score: 200,
        blind_target: 1000,
        blind_failed: false,
        blind_cleared: false,
    };
    let target = TargetConfig {
        target_score: Some(200),
        target_ante: Some(5),
        target_money: Some(30),
        stop_on_blind_failed: true,
    };
    assert_eq!(target_reached(metrics, target), false);
}

#[test]
fn target_case_140() {
    let metrics = EvalMetrics {
        ante: 4,
        money: 30,
        blind_score: 500,
        blind_target: 1000,
        blind_failed: false,
        blind_cleared: false,
    };
    let target = TargetConfig {
        target_score: Some(500),
        target_ante: Some(4),
        target_money: Some(30),
        stop_on_blind_failed: true,
    };
    assert_eq!(target_reached(metrics, target), true);
}

#[test]
fn target_case_141() {
    let metrics = EvalMetrics {
        ante: 4,
        money: 30,
        blind_score: 500,
        blind_target: 1000,
        blind_failed: false,
        blind_cleared: false,
    };
    let target = TargetConfig {
        target_score: Some(500),
        target_ante: Some(5),
        target_money: Some(30),
        stop_on_blind_failed: true,
    };
    assert_eq!(target_reached(metrics, target), false);
}

#[test]
fn target_case_142() {
    let metrics = EvalMetrics {
        ante: 4,
        money: 30,
        blind_score: 1000,
        blind_target: 1000,
        blind_failed: false,
        blind_cleared: false,
    };
    let target = TargetConfig {
        target_score: Some(1000),
        target_ante: Some(4),
        target_money: Some(30),
        stop_on_blind_failed: true,
    };
    assert_eq!(target_reached(metrics, target), true);
}

#[test]
fn target_case_143() {
    let metrics = EvalMetrics {
        ante: 4,
        money: 30,
        blind_score: 1000,
        blind_target: 1000,
        blind_failed: false,
        blind_cleared: false,
    };
    let target = TargetConfig {
        target_score: Some(1000),
        target_ante: Some(5),
        target_money: Some(30),
        stop_on_blind_failed: true,
    };
    assert_eq!(target_reached(metrics, target), false);
}

#[test]
fn target_case_144() {
    let metrics = EvalMetrics {
        ante: 4,
        money: 60,
        blind_score: 0,
        blind_target: 1000,
        blind_failed: false,
        blind_cleared: false,
    };
    let target = TargetConfig {
        target_score: Some(0),
        target_ante: Some(4),
        target_money: Some(60),
        stop_on_blind_failed: true,
    };
    assert_eq!(target_reached(metrics, target), true);
}

#[test]
fn target_case_145() {
    let metrics = EvalMetrics {
        ante: 4,
        money: 60,
        blind_score: 0,
        blind_target: 1000,
        blind_failed: false,
        blind_cleared: false,
    };
    let target = TargetConfig {
        target_score: Some(0),
        target_ante: Some(5),
        target_money: Some(60),
        stop_on_blind_failed: true,
    };
    assert_eq!(target_reached(metrics, target), false);
}

#[test]
fn target_case_146() {
    let metrics = EvalMetrics {
        ante: 4,
        money: 60,
        blind_score: 200,
        blind_target: 1000,
        blind_failed: false,
        blind_cleared: false,
    };
    let target = TargetConfig {
        target_score: Some(200),
        target_ante: Some(4),
        target_money: Some(60),
        stop_on_blind_failed: true,
    };
    assert_eq!(target_reached(metrics, target), true);
}

#[test]
fn target_case_147() {
    let metrics = EvalMetrics {
        ante: 4,
        money: 60,
        blind_score: 200,
        blind_target: 1000,
        blind_failed: false,
        blind_cleared: false,
    };
    let target = TargetConfig {
        target_score: Some(200),
        target_ante: Some(5),
        target_money: Some(60),
        stop_on_blind_failed: true,
    };
    assert_eq!(target_reached(metrics, target), false);
}

#[test]
fn target_case_148() {
    let metrics = EvalMetrics {
        ante: 4,
        money: 60,
        blind_score: 500,
        blind_target: 1000,
        blind_failed: false,
        blind_cleared: false,
    };
    let target = TargetConfig {
        target_score: Some(500),
        target_ante: Some(4),
        target_money: Some(60),
        stop_on_blind_failed: true,
    };
    assert_eq!(target_reached(metrics, target), true);
}

#[test]
fn target_case_149() {
    let metrics = EvalMetrics {
        ante: 4,
        money: 60,
        blind_score: 500,
        blind_target: 1000,
        blind_failed: false,
        blind_cleared: false,
    };
    let target = TargetConfig {
        target_score: Some(500),
        target_ante: Some(5),
        target_money: Some(60),
        stop_on_blind_failed: true,
    };
    assert_eq!(target_reached(metrics, target), false);
}

#[test]
fn target_case_150() {
    let metrics = EvalMetrics {
        ante: 4,
        money: 60,
        blind_score: 1000,
        blind_target: 1000,
        blind_failed: false,
        blind_cleared: false,
    };
    let target = TargetConfig {
        target_score: Some(1000),
        target_ante: Some(4),
        target_money: Some(60),
        stop_on_blind_failed: true,
    };
    assert_eq!(target_reached(metrics, target), true);
}

#[test]
fn target_case_151() {
    let metrics = EvalMetrics {
        ante: 4,
        money: 60,
        blind_score: 1000,
        blind_target: 1000,
        blind_failed: false,
        blind_cleared: false,
    };
    let target = TargetConfig {
        target_score: Some(1000),
        target_ante: Some(5),
        target_money: Some(60),
        stop_on_blind_failed: true,
    };
    assert_eq!(target_reached(metrics, target), false);
}

#[test]
fn target_case_152() {
    let metrics = EvalMetrics {
        ante: 4,
        money: 100,
        blind_score: 0,
        blind_target: 1000,
        blind_failed: false,
        blind_cleared: false,
    };
    let target = TargetConfig {
        target_score: Some(0),
        target_ante: Some(4),
        target_money: Some(100),
        stop_on_blind_failed: true,
    };
    assert_eq!(target_reached(metrics, target), true);
}

#[test]
fn target_case_153() {
    let metrics = EvalMetrics {
        ante: 4,
        money: 100,
        blind_score: 0,
        blind_target: 1000,
        blind_failed: false,
        blind_cleared: false,
    };
    let target = TargetConfig {
        target_score: Some(0),
        target_ante: Some(5),
        target_money: Some(100),
        stop_on_blind_failed: true,
    };
    assert_eq!(target_reached(metrics, target), false);
}

#[test]
fn target_case_154() {
    let metrics = EvalMetrics {
        ante: 4,
        money: 100,
        blind_score: 200,
        blind_target: 1000,
        blind_failed: false,
        blind_cleared: false,
    };
    let target = TargetConfig {
        target_score: Some(200),
        target_ante: Some(4),
        target_money: Some(100),
        stop_on_blind_failed: true,
    };
    assert_eq!(target_reached(metrics, target), true);
}

#[test]
fn target_case_155() {
    let metrics = EvalMetrics {
        ante: 4,
        money: 100,
        blind_score: 200,
        blind_target: 1000,
        blind_failed: false,
        blind_cleared: false,
    };
    let target = TargetConfig {
        target_score: Some(200),
        target_ante: Some(5),
        target_money: Some(100),
        stop_on_blind_failed: true,
    };
    assert_eq!(target_reached(metrics, target), false);
}

#[test]
fn target_case_156() {
    let metrics = EvalMetrics {
        ante: 4,
        money: 100,
        blind_score: 500,
        blind_target: 1000,
        blind_failed: false,
        blind_cleared: false,
    };
    let target = TargetConfig {
        target_score: Some(500),
        target_ante: Some(4),
        target_money: Some(100),
        stop_on_blind_failed: true,
    };
    assert_eq!(target_reached(metrics, target), true);
}

#[test]
fn target_case_157() {
    let metrics = EvalMetrics {
        ante: 4,
        money: 100,
        blind_score: 500,
        blind_target: 1000,
        blind_failed: false,
        blind_cleared: false,
    };
    let target = TargetConfig {
        target_score: Some(500),
        target_ante: Some(5),
        target_money: Some(100),
        stop_on_blind_failed: true,
    };
    assert_eq!(target_reached(metrics, target), false);
}

#[test]
fn target_case_158() {
    let metrics = EvalMetrics {
        ante: 4,
        money: 100,
        blind_score: 1000,
        blind_target: 1000,
        blind_failed: false,
        blind_cleared: false,
    };
    let target = TargetConfig {
        target_score: Some(1000),
        target_ante: Some(4),
        target_money: Some(100),
        stop_on_blind_failed: true,
    };
    assert_eq!(target_reached(metrics, target), true);
}

#[test]
fn target_case_159() {
    let metrics = EvalMetrics {
        ante: 4,
        money: 100,
        blind_score: 1000,
        blind_target: 1000,
        blind_failed: false,
        blind_cleared: false,
    };
    let target = TargetConfig {
        target_score: Some(1000),
        target_ante: Some(5),
        target_money: Some(100),
        stop_on_blind_failed: true,
    };
    assert_eq!(target_reached(metrics, target), false);
}

#[test]
fn target_case_160() {
    let metrics = EvalMetrics {
        ante: 5,
        money: 0,
        blind_score: 0,
        blind_target: 1000,
        blind_failed: false,
        blind_cleared: false,
    };
    let target = TargetConfig {
        target_score: Some(0),
        target_ante: Some(5),
        target_money: Some(0),
        stop_on_blind_failed: true,
    };
    assert_eq!(target_reached(metrics, target), true);
}

#[test]
fn target_case_161() {
    let metrics = EvalMetrics {
        ante: 5,
        money: 0,
        blind_score: 0,
        blind_target: 1000,
        blind_failed: false,
        blind_cleared: false,
    };
    let target = TargetConfig {
        target_score: Some(0),
        target_ante: Some(6),
        target_money: Some(0),
        stop_on_blind_failed: true,
    };
    assert_eq!(target_reached(metrics, target), false);
}

#[test]
fn target_case_162() {
    let metrics = EvalMetrics {
        ante: 5,
        money: 0,
        blind_score: 200,
        blind_target: 1000,
        blind_failed: false,
        blind_cleared: false,
    };
    let target = TargetConfig {
        target_score: Some(200),
        target_ante: Some(5),
        target_money: Some(0),
        stop_on_blind_failed: true,
    };
    assert_eq!(target_reached(metrics, target), true);
}

#[test]
fn target_case_163() {
    let metrics = EvalMetrics {
        ante: 5,
        money: 0,
        blind_score: 200,
        blind_target: 1000,
        blind_failed: false,
        blind_cleared: false,
    };
    let target = TargetConfig {
        target_score: Some(200),
        target_ante: Some(6),
        target_money: Some(0),
        stop_on_blind_failed: true,
    };
    assert_eq!(target_reached(metrics, target), false);
}

#[test]
fn target_case_164() {
    let metrics = EvalMetrics {
        ante: 5,
        money: 0,
        blind_score: 500,
        blind_target: 1000,
        blind_failed: false,
        blind_cleared: false,
    };
    let target = TargetConfig {
        target_score: Some(500),
        target_ante: Some(5),
        target_money: Some(0),
        stop_on_blind_failed: true,
    };
    assert_eq!(target_reached(metrics, target), true);
}

#[test]
fn target_case_165() {
    let metrics = EvalMetrics {
        ante: 5,
        money: 0,
        blind_score: 500,
        blind_target: 1000,
        blind_failed: false,
        blind_cleared: false,
    };
    let target = TargetConfig {
        target_score: Some(500),
        target_ante: Some(6),
        target_money: Some(0),
        stop_on_blind_failed: true,
    };
    assert_eq!(target_reached(metrics, target), false);
}

#[test]
fn target_case_166() {
    let metrics = EvalMetrics {
        ante: 5,
        money: 0,
        blind_score: 1000,
        blind_target: 1000,
        blind_failed: false,
        blind_cleared: false,
    };
    let target = TargetConfig {
        target_score: Some(1000),
        target_ante: Some(5),
        target_money: Some(0),
        stop_on_blind_failed: true,
    };
    assert_eq!(target_reached(metrics, target), true);
}

#[test]
fn target_case_167() {
    let metrics = EvalMetrics {
        ante: 5,
        money: 0,
        blind_score: 1000,
        blind_target: 1000,
        blind_failed: false,
        blind_cleared: false,
    };
    let target = TargetConfig {
        target_score: Some(1000),
        target_ante: Some(6),
        target_money: Some(0),
        stop_on_blind_failed: true,
    };
    assert_eq!(target_reached(metrics, target), false);
}

#[test]
fn target_case_168() {
    let metrics = EvalMetrics {
        ante: 5,
        money: 10,
        blind_score: 0,
        blind_target: 1000,
        blind_failed: false,
        blind_cleared: false,
    };
    let target = TargetConfig {
        target_score: Some(0),
        target_ante: Some(5),
        target_money: Some(10),
        stop_on_blind_failed: true,
    };
    assert_eq!(target_reached(metrics, target), true);
}

#[test]
fn target_case_169() {
    let metrics = EvalMetrics {
        ante: 5,
        money: 10,
        blind_score: 0,
        blind_target: 1000,
        blind_failed: false,
        blind_cleared: false,
    };
    let target = TargetConfig {
        target_score: Some(0),
        target_ante: Some(6),
        target_money: Some(10),
        stop_on_blind_failed: true,
    };
    assert_eq!(target_reached(metrics, target), false);
}

#[test]
fn target_case_170() {
    let metrics = EvalMetrics {
        ante: 5,
        money: 10,
        blind_score: 200,
        blind_target: 1000,
        blind_failed: false,
        blind_cleared: false,
    };
    let target = TargetConfig {
        target_score: Some(200),
        target_ante: Some(5),
        target_money: Some(10),
        stop_on_blind_failed: true,
    };
    assert_eq!(target_reached(metrics, target), true);
}

#[test]
fn target_case_171() {
    let metrics = EvalMetrics {
        ante: 5,
        money: 10,
        blind_score: 200,
        blind_target: 1000,
        blind_failed: false,
        blind_cleared: false,
    };
    let target = TargetConfig {
        target_score: Some(200),
        target_ante: Some(6),
        target_money: Some(10),
        stop_on_blind_failed: true,
    };
    assert_eq!(target_reached(metrics, target), false);
}

#[test]
fn target_case_172() {
    let metrics = EvalMetrics {
        ante: 5,
        money: 10,
        blind_score: 500,
        blind_target: 1000,
        blind_failed: false,
        blind_cleared: false,
    };
    let target = TargetConfig {
        target_score: Some(500),
        target_ante: Some(5),
        target_money: Some(10),
        stop_on_blind_failed: true,
    };
    assert_eq!(target_reached(metrics, target), true);
}

#[test]
fn target_case_173() {
    let metrics = EvalMetrics {
        ante: 5,
        money: 10,
        blind_score: 500,
        blind_target: 1000,
        blind_failed: false,
        blind_cleared: false,
    };
    let target = TargetConfig {
        target_score: Some(500),
        target_ante: Some(6),
        target_money: Some(10),
        stop_on_blind_failed: true,
    };
    assert_eq!(target_reached(metrics, target), false);
}

#[test]
fn target_case_174() {
    let metrics = EvalMetrics {
        ante: 5,
        money: 10,
        blind_score: 1000,
        blind_target: 1000,
        blind_failed: false,
        blind_cleared: false,
    };
    let target = TargetConfig {
        target_score: Some(1000),
        target_ante: Some(5),
        target_money: Some(10),
        stop_on_blind_failed: true,
    };
    assert_eq!(target_reached(metrics, target), true);
}

#[test]
fn target_case_175() {
    let metrics = EvalMetrics {
        ante: 5,
        money: 10,
        blind_score: 1000,
        blind_target: 1000,
        blind_failed: false,
        blind_cleared: false,
    };
    let target = TargetConfig {
        target_score: Some(1000),
        target_ante: Some(6),
        target_money: Some(10),
        stop_on_blind_failed: true,
    };
    assert_eq!(target_reached(metrics, target), false);
}

#[test]
fn target_case_176() {
    let metrics = EvalMetrics {
        ante: 5,
        money: 30,
        blind_score: 0,
        blind_target: 1000,
        blind_failed: false,
        blind_cleared: false,
    };
    let target = TargetConfig {
        target_score: Some(0),
        target_ante: Some(5),
        target_money: Some(30),
        stop_on_blind_failed: true,
    };
    assert_eq!(target_reached(metrics, target), true);
}

#[test]
fn target_case_177() {
    let metrics = EvalMetrics {
        ante: 5,
        money: 30,
        blind_score: 0,
        blind_target: 1000,
        blind_failed: false,
        blind_cleared: false,
    };
    let target = TargetConfig {
        target_score: Some(0),
        target_ante: Some(6),
        target_money: Some(30),
        stop_on_blind_failed: true,
    };
    assert_eq!(target_reached(metrics, target), false);
}

#[test]
fn target_case_178() {
    let metrics = EvalMetrics {
        ante: 5,
        money: 30,
        blind_score: 200,
        blind_target: 1000,
        blind_failed: false,
        blind_cleared: false,
    };
    let target = TargetConfig {
        target_score: Some(200),
        target_ante: Some(5),
        target_money: Some(30),
        stop_on_blind_failed: true,
    };
    assert_eq!(target_reached(metrics, target), true);
}

#[test]
fn target_case_179() {
    let metrics = EvalMetrics {
        ante: 5,
        money: 30,
        blind_score: 200,
        blind_target: 1000,
        blind_failed: false,
        blind_cleared: false,
    };
    let target = TargetConfig {
        target_score: Some(200),
        target_ante: Some(6),
        target_money: Some(30),
        stop_on_blind_failed: true,
    };
    assert_eq!(target_reached(metrics, target), false);
}

#[test]
fn target_case_180() {
    let metrics = EvalMetrics {
        ante: 5,
        money: 30,
        blind_score: 500,
        blind_target: 1000,
        blind_failed: false,
        blind_cleared: false,
    };
    let target = TargetConfig {
        target_score: Some(500),
        target_ante: Some(5),
        target_money: Some(30),
        stop_on_blind_failed: true,
    };
    assert_eq!(target_reached(metrics, target), true);
}

#[test]
fn target_case_181() {
    let metrics = EvalMetrics {
        ante: 5,
        money: 30,
        blind_score: 500,
        blind_target: 1000,
        blind_failed: false,
        blind_cleared: false,
    };
    let target = TargetConfig {
        target_score: Some(500),
        target_ante: Some(6),
        target_money: Some(30),
        stop_on_blind_failed: true,
    };
    assert_eq!(target_reached(metrics, target), false);
}

#[test]
fn target_case_182() {
    let metrics = EvalMetrics {
        ante: 5,
        money: 30,
        blind_score: 1000,
        blind_target: 1000,
        blind_failed: false,
        blind_cleared: false,
    };
    let target = TargetConfig {
        target_score: Some(1000),
        target_ante: Some(5),
        target_money: Some(30),
        stop_on_blind_failed: true,
    };
    assert_eq!(target_reached(metrics, target), true);
}

#[test]
fn target_case_183() {
    let metrics = EvalMetrics {
        ante: 5,
        money: 30,
        blind_score: 1000,
        blind_target: 1000,
        blind_failed: false,
        blind_cleared: false,
    };
    let target = TargetConfig {
        target_score: Some(1000),
        target_ante: Some(6),
        target_money: Some(30),
        stop_on_blind_failed: true,
    };
    assert_eq!(target_reached(metrics, target), false);
}

#[test]
fn target_case_184() {
    let metrics = EvalMetrics {
        ante: 5,
        money: 60,
        blind_score: 0,
        blind_target: 1000,
        blind_failed: false,
        blind_cleared: false,
    };
    let target = TargetConfig {
        target_score: Some(0),
        target_ante: Some(5),
        target_money: Some(60),
        stop_on_blind_failed: true,
    };
    assert_eq!(target_reached(metrics, target), true);
}

#[test]
fn target_case_185() {
    let metrics = EvalMetrics {
        ante: 5,
        money: 60,
        blind_score: 0,
        blind_target: 1000,
        blind_failed: false,
        blind_cleared: false,
    };
    let target = TargetConfig {
        target_score: Some(0),
        target_ante: Some(6),
        target_money: Some(60),
        stop_on_blind_failed: true,
    };
    assert_eq!(target_reached(metrics, target), false);
}

#[test]
fn target_case_186() {
    let metrics = EvalMetrics {
        ante: 5,
        money: 60,
        blind_score: 200,
        blind_target: 1000,
        blind_failed: false,
        blind_cleared: false,
    };
    let target = TargetConfig {
        target_score: Some(200),
        target_ante: Some(5),
        target_money: Some(60),
        stop_on_blind_failed: true,
    };
    assert_eq!(target_reached(metrics, target), true);
}

#[test]
fn target_case_187() {
    let metrics = EvalMetrics {
        ante: 5,
        money: 60,
        blind_score: 200,
        blind_target: 1000,
        blind_failed: false,
        blind_cleared: false,
    };
    let target = TargetConfig {
        target_score: Some(200),
        target_ante: Some(6),
        target_money: Some(60),
        stop_on_blind_failed: true,
    };
    assert_eq!(target_reached(metrics, target), false);
}

#[test]
fn target_case_188() {
    let metrics = EvalMetrics {
        ante: 5,
        money: 60,
        blind_score: 500,
        blind_target: 1000,
        blind_failed: false,
        blind_cleared: false,
    };
    let target = TargetConfig {
        target_score: Some(500),
        target_ante: Some(5),
        target_money: Some(60),
        stop_on_blind_failed: true,
    };
    assert_eq!(target_reached(metrics, target), true);
}

#[test]
fn target_case_189() {
    let metrics = EvalMetrics {
        ante: 5,
        money: 60,
        blind_score: 500,
        blind_target: 1000,
        blind_failed: false,
        blind_cleared: false,
    };
    let target = TargetConfig {
        target_score: Some(500),
        target_ante: Some(6),
        target_money: Some(60),
        stop_on_blind_failed: true,
    };
    assert_eq!(target_reached(metrics, target), false);
}

#[test]
fn target_case_190() {
    let metrics = EvalMetrics {
        ante: 5,
        money: 60,
        blind_score: 1000,
        blind_target: 1000,
        blind_failed: false,
        blind_cleared: false,
    };
    let target = TargetConfig {
        target_score: Some(1000),
        target_ante: Some(5),
        target_money: Some(60),
        stop_on_blind_failed: true,
    };
    assert_eq!(target_reached(metrics, target), true);
}

#[test]
fn target_case_191() {
    let metrics = EvalMetrics {
        ante: 5,
        money: 60,
        blind_score: 1000,
        blind_target: 1000,
        blind_failed: false,
        blind_cleared: false,
    };
    let target = TargetConfig {
        target_score: Some(1000),
        target_ante: Some(6),
        target_money: Some(60),
        stop_on_blind_failed: true,
    };
    assert_eq!(target_reached(metrics, target), false);
}

#[test]
fn target_case_192() {
    let metrics = EvalMetrics {
        ante: 5,
        money: 100,
        blind_score: 0,
        blind_target: 1000,
        blind_failed: false,
        blind_cleared: false,
    };
    let target = TargetConfig {
        target_score: Some(0),
        target_ante: Some(5),
        target_money: Some(100),
        stop_on_blind_failed: true,
    };
    assert_eq!(target_reached(metrics, target), true);
}

#[test]
fn target_case_193() {
    let metrics = EvalMetrics {
        ante: 5,
        money: 100,
        blind_score: 0,
        blind_target: 1000,
        blind_failed: false,
        blind_cleared: false,
    };
    let target = TargetConfig {
        target_score: Some(0),
        target_ante: Some(6),
        target_money: Some(100),
        stop_on_blind_failed: true,
    };
    assert_eq!(target_reached(metrics, target), false);
}

#[test]
fn target_case_194() {
    let metrics = EvalMetrics {
        ante: 5,
        money: 100,
        blind_score: 200,
        blind_target: 1000,
        blind_failed: false,
        blind_cleared: false,
    };
    let target = TargetConfig {
        target_score: Some(200),
        target_ante: Some(5),
        target_money: Some(100),
        stop_on_blind_failed: true,
    };
    assert_eq!(target_reached(metrics, target), true);
}

#[test]
fn target_case_195() {
    let metrics = EvalMetrics {
        ante: 5,
        money: 100,
        blind_score: 200,
        blind_target: 1000,
        blind_failed: false,
        blind_cleared: false,
    };
    let target = TargetConfig {
        target_score: Some(200),
        target_ante: Some(6),
        target_money: Some(100),
        stop_on_blind_failed: true,
    };
    assert_eq!(target_reached(metrics, target), false);
}

#[test]
fn target_case_196() {
    let metrics = EvalMetrics {
        ante: 5,
        money: 100,
        blind_score: 500,
        blind_target: 1000,
        blind_failed: false,
        blind_cleared: false,
    };
    let target = TargetConfig {
        target_score: Some(500),
        target_ante: Some(5),
        target_money: Some(100),
        stop_on_blind_failed: true,
    };
    assert_eq!(target_reached(metrics, target), true);
}

#[test]
fn target_case_197() {
    let metrics = EvalMetrics {
        ante: 5,
        money: 100,
        blind_score: 500,
        blind_target: 1000,
        blind_failed: false,
        blind_cleared: false,
    };
    let target = TargetConfig {
        target_score: Some(500),
        target_ante: Some(6),
        target_money: Some(100),
        stop_on_blind_failed: true,
    };
    assert_eq!(target_reached(metrics, target), false);
}

#[test]
fn target_case_198() {
    let metrics = EvalMetrics {
        ante: 5,
        money: 100,
        blind_score: 1000,
        blind_target: 1000,
        blind_failed: false,
        blind_cleared: false,
    };
    let target = TargetConfig {
        target_score: Some(1000),
        target_ante: Some(5),
        target_money: Some(100),
        stop_on_blind_failed: true,
    };
    assert_eq!(target_reached(metrics, target), true);
}

#[test]
fn target_case_199() {
    let metrics = EvalMetrics {
        ante: 5,
        money: 100,
        blind_score: 1000,
        blind_target: 1000,
        blind_failed: false,
        blind_cleared: false,
    };
    let target = TargetConfig {
        target_score: Some(1000),
        target_ante: Some(6),
        target_money: Some(100),
        stop_on_blind_failed: true,
    };
    assert_eq!(target_reached(metrics, target), false);
}

#[test]
fn target_case_200() {
    let metrics = EvalMetrics {
        ante: 6,
        money: 0,
        blind_score: 0,
        blind_target: 1000,
        blind_failed: false,
        blind_cleared: false,
    };
    let target = TargetConfig {
        target_score: Some(0),
        target_ante: Some(6),
        target_money: Some(0),
        stop_on_blind_failed: true,
    };
    assert_eq!(target_reached(metrics, target), true);
}

#[test]
fn target_case_201() {
    let metrics = EvalMetrics {
        ante: 6,
        money: 0,
        blind_score: 0,
        blind_target: 1000,
        blind_failed: false,
        blind_cleared: false,
    };
    let target = TargetConfig {
        target_score: Some(0),
        target_ante: Some(7),
        target_money: Some(0),
        stop_on_blind_failed: true,
    };
    assert_eq!(target_reached(metrics, target), false);
}

#[test]
fn target_case_202() {
    let metrics = EvalMetrics {
        ante: 6,
        money: 0,
        blind_score: 200,
        blind_target: 1000,
        blind_failed: false,
        blind_cleared: false,
    };
    let target = TargetConfig {
        target_score: Some(200),
        target_ante: Some(6),
        target_money: Some(0),
        stop_on_blind_failed: true,
    };
    assert_eq!(target_reached(metrics, target), true);
}

#[test]
fn target_case_203() {
    let metrics = EvalMetrics {
        ante: 6,
        money: 0,
        blind_score: 200,
        blind_target: 1000,
        blind_failed: false,
        blind_cleared: false,
    };
    let target = TargetConfig {
        target_score: Some(200),
        target_ante: Some(7),
        target_money: Some(0),
        stop_on_blind_failed: true,
    };
    assert_eq!(target_reached(metrics, target), false);
}

#[test]
fn target_case_204() {
    let metrics = EvalMetrics {
        ante: 6,
        money: 0,
        blind_score: 500,
        blind_target: 1000,
        blind_failed: false,
        blind_cleared: false,
    };
    let target = TargetConfig {
        target_score: Some(500),
        target_ante: Some(6),
        target_money: Some(0),
        stop_on_blind_failed: true,
    };
    assert_eq!(target_reached(metrics, target), true);
}

#[test]
fn target_case_205() {
    let metrics = EvalMetrics {
        ante: 6,
        money: 0,
        blind_score: 500,
        blind_target: 1000,
        blind_failed: false,
        blind_cleared: false,
    };
    let target = TargetConfig {
        target_score: Some(500),
        target_ante: Some(7),
        target_money: Some(0),
        stop_on_blind_failed: true,
    };
    assert_eq!(target_reached(metrics, target), false);
}

#[test]
fn target_case_206() {
    let metrics = EvalMetrics {
        ante: 6,
        money: 0,
        blind_score: 1000,
        blind_target: 1000,
        blind_failed: false,
        blind_cleared: false,
    };
    let target = TargetConfig {
        target_score: Some(1000),
        target_ante: Some(6),
        target_money: Some(0),
        stop_on_blind_failed: true,
    };
    assert_eq!(target_reached(metrics, target), true);
}

#[test]
fn target_case_207() {
    let metrics = EvalMetrics {
        ante: 6,
        money: 0,
        blind_score: 1000,
        blind_target: 1000,
        blind_failed: false,
        blind_cleared: false,
    };
    let target = TargetConfig {
        target_score: Some(1000),
        target_ante: Some(7),
        target_money: Some(0),
        stop_on_blind_failed: true,
    };
    assert_eq!(target_reached(metrics, target), false);
}

#[test]
fn target_case_208() {
    let metrics = EvalMetrics {
        ante: 6,
        money: 10,
        blind_score: 0,
        blind_target: 1000,
        blind_failed: false,
        blind_cleared: false,
    };
    let target = TargetConfig {
        target_score: Some(0),
        target_ante: Some(6),
        target_money: Some(10),
        stop_on_blind_failed: true,
    };
    assert_eq!(target_reached(metrics, target), true);
}

#[test]
fn target_case_209() {
    let metrics = EvalMetrics {
        ante: 6,
        money: 10,
        blind_score: 0,
        blind_target: 1000,
        blind_failed: false,
        blind_cleared: false,
    };
    let target = TargetConfig {
        target_score: Some(0),
        target_ante: Some(7),
        target_money: Some(10),
        stop_on_blind_failed: true,
    };
    assert_eq!(target_reached(metrics, target), false);
}

#[test]
fn target_case_210() {
    let metrics = EvalMetrics {
        ante: 6,
        money: 10,
        blind_score: 200,
        blind_target: 1000,
        blind_failed: false,
        blind_cleared: false,
    };
    let target = TargetConfig {
        target_score: Some(200),
        target_ante: Some(6),
        target_money: Some(10),
        stop_on_blind_failed: true,
    };
    assert_eq!(target_reached(metrics, target), true);
}

#[test]
fn target_case_211() {
    let metrics = EvalMetrics {
        ante: 6,
        money: 10,
        blind_score: 200,
        blind_target: 1000,
        blind_failed: false,
        blind_cleared: false,
    };
    let target = TargetConfig {
        target_score: Some(200),
        target_ante: Some(7),
        target_money: Some(10),
        stop_on_blind_failed: true,
    };
    assert_eq!(target_reached(metrics, target), false);
}

#[test]
fn target_case_212() {
    let metrics = EvalMetrics {
        ante: 6,
        money: 10,
        blind_score: 500,
        blind_target: 1000,
        blind_failed: false,
        blind_cleared: false,
    };
    let target = TargetConfig {
        target_score: Some(500),
        target_ante: Some(6),
        target_money: Some(10),
        stop_on_blind_failed: true,
    };
    assert_eq!(target_reached(metrics, target), true);
}

#[test]
fn target_case_213() {
    let metrics = EvalMetrics {
        ante: 6,
        money: 10,
        blind_score: 500,
        blind_target: 1000,
        blind_failed: false,
        blind_cleared: false,
    };
    let target = TargetConfig {
        target_score: Some(500),
        target_ante: Some(7),
        target_money: Some(10),
        stop_on_blind_failed: true,
    };
    assert_eq!(target_reached(metrics, target), false);
}

#[test]
fn target_case_214() {
    let metrics = EvalMetrics {
        ante: 6,
        money: 10,
        blind_score: 1000,
        blind_target: 1000,
        blind_failed: false,
        blind_cleared: false,
    };
    let target = TargetConfig {
        target_score: Some(1000),
        target_ante: Some(6),
        target_money: Some(10),
        stop_on_blind_failed: true,
    };
    assert_eq!(target_reached(metrics, target), true);
}

#[test]
fn target_case_215() {
    let metrics = EvalMetrics {
        ante: 6,
        money: 10,
        blind_score: 1000,
        blind_target: 1000,
        blind_failed: false,
        blind_cleared: false,
    };
    let target = TargetConfig {
        target_score: Some(1000),
        target_ante: Some(7),
        target_money: Some(10),
        stop_on_blind_failed: true,
    };
    assert_eq!(target_reached(metrics, target), false);
}

#[test]
fn target_case_216() {
    let metrics = EvalMetrics {
        ante: 6,
        money: 30,
        blind_score: 0,
        blind_target: 1000,
        blind_failed: false,
        blind_cleared: false,
    };
    let target = TargetConfig {
        target_score: Some(0),
        target_ante: Some(6),
        target_money: Some(30),
        stop_on_blind_failed: true,
    };
    assert_eq!(target_reached(metrics, target), true);
}

#[test]
fn target_case_217() {
    let metrics = EvalMetrics {
        ante: 6,
        money: 30,
        blind_score: 0,
        blind_target: 1000,
        blind_failed: false,
        blind_cleared: false,
    };
    let target = TargetConfig {
        target_score: Some(0),
        target_ante: Some(7),
        target_money: Some(30),
        stop_on_blind_failed: true,
    };
    assert_eq!(target_reached(metrics, target), false);
}

#[test]
fn target_case_218() {
    let metrics = EvalMetrics {
        ante: 6,
        money: 30,
        blind_score: 200,
        blind_target: 1000,
        blind_failed: false,
        blind_cleared: false,
    };
    let target = TargetConfig {
        target_score: Some(200),
        target_ante: Some(6),
        target_money: Some(30),
        stop_on_blind_failed: true,
    };
    assert_eq!(target_reached(metrics, target), true);
}

#[test]
fn target_case_219() {
    let metrics = EvalMetrics {
        ante: 6,
        money: 30,
        blind_score: 200,
        blind_target: 1000,
        blind_failed: false,
        blind_cleared: false,
    };
    let target = TargetConfig {
        target_score: Some(200),
        target_ante: Some(7),
        target_money: Some(30),
        stop_on_blind_failed: true,
    };
    assert_eq!(target_reached(metrics, target), false);
}

#[test]
fn target_case_220() {
    let metrics = EvalMetrics {
        ante: 6,
        money: 30,
        blind_score: 500,
        blind_target: 1000,
        blind_failed: false,
        blind_cleared: false,
    };
    let target = TargetConfig {
        target_score: Some(500),
        target_ante: Some(6),
        target_money: Some(30),
        stop_on_blind_failed: true,
    };
    assert_eq!(target_reached(metrics, target), true);
}

#[test]
fn target_case_221() {
    let metrics = EvalMetrics {
        ante: 6,
        money: 30,
        blind_score: 500,
        blind_target: 1000,
        blind_failed: false,
        blind_cleared: false,
    };
    let target = TargetConfig {
        target_score: Some(500),
        target_ante: Some(7),
        target_money: Some(30),
        stop_on_blind_failed: true,
    };
    assert_eq!(target_reached(metrics, target), false);
}

#[test]
fn target_case_222() {
    let metrics = EvalMetrics {
        ante: 6,
        money: 30,
        blind_score: 1000,
        blind_target: 1000,
        blind_failed: false,
        blind_cleared: false,
    };
    let target = TargetConfig {
        target_score: Some(1000),
        target_ante: Some(6),
        target_money: Some(30),
        stop_on_blind_failed: true,
    };
    assert_eq!(target_reached(metrics, target), true);
}

#[test]
fn target_case_223() {
    let metrics = EvalMetrics {
        ante: 6,
        money: 30,
        blind_score: 1000,
        blind_target: 1000,
        blind_failed: false,
        blind_cleared: false,
    };
    let target = TargetConfig {
        target_score: Some(1000),
        target_ante: Some(7),
        target_money: Some(30),
        stop_on_blind_failed: true,
    };
    assert_eq!(target_reached(metrics, target), false);
}

#[test]
fn target_case_224() {
    let metrics = EvalMetrics {
        ante: 6,
        money: 60,
        blind_score: 0,
        blind_target: 1000,
        blind_failed: false,
        blind_cleared: false,
    };
    let target = TargetConfig {
        target_score: Some(0),
        target_ante: Some(6),
        target_money: Some(60),
        stop_on_blind_failed: true,
    };
    assert_eq!(target_reached(metrics, target), true);
}

#[test]
fn target_case_225() {
    let metrics = EvalMetrics {
        ante: 6,
        money: 60,
        blind_score: 0,
        blind_target: 1000,
        blind_failed: false,
        blind_cleared: false,
    };
    let target = TargetConfig {
        target_score: Some(0),
        target_ante: Some(7),
        target_money: Some(60),
        stop_on_blind_failed: true,
    };
    assert_eq!(target_reached(metrics, target), false);
}

#[test]
fn target_case_226() {
    let metrics = EvalMetrics {
        ante: 6,
        money: 60,
        blind_score: 200,
        blind_target: 1000,
        blind_failed: false,
        blind_cleared: false,
    };
    let target = TargetConfig {
        target_score: Some(200),
        target_ante: Some(6),
        target_money: Some(60),
        stop_on_blind_failed: true,
    };
    assert_eq!(target_reached(metrics, target), true);
}

#[test]
fn target_case_227() {
    let metrics = EvalMetrics {
        ante: 6,
        money: 60,
        blind_score: 200,
        blind_target: 1000,
        blind_failed: false,
        blind_cleared: false,
    };
    let target = TargetConfig {
        target_score: Some(200),
        target_ante: Some(7),
        target_money: Some(60),
        stop_on_blind_failed: true,
    };
    assert_eq!(target_reached(metrics, target), false);
}

#[test]
fn target_case_228() {
    let metrics = EvalMetrics {
        ante: 6,
        money: 60,
        blind_score: 500,
        blind_target: 1000,
        blind_failed: false,
        blind_cleared: false,
    };
    let target = TargetConfig {
        target_score: Some(500),
        target_ante: Some(6),
        target_money: Some(60),
        stop_on_blind_failed: true,
    };
    assert_eq!(target_reached(metrics, target), true);
}

#[test]
fn target_case_229() {
    let metrics = EvalMetrics {
        ante: 6,
        money: 60,
        blind_score: 500,
        blind_target: 1000,
        blind_failed: false,
        blind_cleared: false,
    };
    let target = TargetConfig {
        target_score: Some(500),
        target_ante: Some(7),
        target_money: Some(60),
        stop_on_blind_failed: true,
    };
    assert_eq!(target_reached(metrics, target), false);
}

#[test]
fn target_case_230() {
    let metrics = EvalMetrics {
        ante: 6,
        money: 60,
        blind_score: 1000,
        blind_target: 1000,
        blind_failed: false,
        blind_cleared: false,
    };
    let target = TargetConfig {
        target_score: Some(1000),
        target_ante: Some(6),
        target_money: Some(60),
        stop_on_blind_failed: true,
    };
    assert_eq!(target_reached(metrics, target), true);
}

#[test]
fn target_case_231() {
    let metrics = EvalMetrics {
        ante: 6,
        money: 60,
        blind_score: 1000,
        blind_target: 1000,
        blind_failed: false,
        blind_cleared: false,
    };
    let target = TargetConfig {
        target_score: Some(1000),
        target_ante: Some(7),
        target_money: Some(60),
        stop_on_blind_failed: true,
    };
    assert_eq!(target_reached(metrics, target), false);
}

#[test]
fn target_case_232() {
    let metrics = EvalMetrics {
        ante: 6,
        money: 100,
        blind_score: 0,
        blind_target: 1000,
        blind_failed: false,
        blind_cleared: false,
    };
    let target = TargetConfig {
        target_score: Some(0),
        target_ante: Some(6),
        target_money: Some(100),
        stop_on_blind_failed: true,
    };
    assert_eq!(target_reached(metrics, target), true);
}

#[test]
fn target_case_233() {
    let metrics = EvalMetrics {
        ante: 6,
        money: 100,
        blind_score: 0,
        blind_target: 1000,
        blind_failed: false,
        blind_cleared: false,
    };
    let target = TargetConfig {
        target_score: Some(0),
        target_ante: Some(7),
        target_money: Some(100),
        stop_on_blind_failed: true,
    };
    assert_eq!(target_reached(metrics, target), false);
}

#[test]
fn target_case_234() {
    let metrics = EvalMetrics {
        ante: 6,
        money: 100,
        blind_score: 200,
        blind_target: 1000,
        blind_failed: false,
        blind_cleared: false,
    };
    let target = TargetConfig {
        target_score: Some(200),
        target_ante: Some(6),
        target_money: Some(100),
        stop_on_blind_failed: true,
    };
    assert_eq!(target_reached(metrics, target), true);
}

#[test]
fn target_case_235() {
    let metrics = EvalMetrics {
        ante: 6,
        money: 100,
        blind_score: 200,
        blind_target: 1000,
        blind_failed: false,
        blind_cleared: false,
    };
    let target = TargetConfig {
        target_score: Some(200),
        target_ante: Some(7),
        target_money: Some(100),
        stop_on_blind_failed: true,
    };
    assert_eq!(target_reached(metrics, target), false);
}

#[test]
fn target_case_236() {
    let metrics = EvalMetrics {
        ante: 6,
        money: 100,
        blind_score: 500,
        blind_target: 1000,
        blind_failed: false,
        blind_cleared: false,
    };
    let target = TargetConfig {
        target_score: Some(500),
        target_ante: Some(6),
        target_money: Some(100),
        stop_on_blind_failed: true,
    };
    assert_eq!(target_reached(metrics, target), true);
}

#[test]
fn target_case_237() {
    let metrics = EvalMetrics {
        ante: 6,
        money: 100,
        blind_score: 500,
        blind_target: 1000,
        blind_failed: false,
        blind_cleared: false,
    };
    let target = TargetConfig {
        target_score: Some(500),
        target_ante: Some(7),
        target_money: Some(100),
        stop_on_blind_failed: true,
    };
    assert_eq!(target_reached(metrics, target), false);
}

#[test]
fn target_case_238() {
    let metrics = EvalMetrics {
        ante: 6,
        money: 100,
        blind_score: 1000,
        blind_target: 1000,
        blind_failed: false,
        blind_cleared: false,
    };
    let target = TargetConfig {
        target_score: Some(1000),
        target_ante: Some(6),
        target_money: Some(100),
        stop_on_blind_failed: true,
    };
    assert_eq!(target_reached(metrics, target), true);
}

#[test]
fn target_case_239() {
    let metrics = EvalMetrics {
        ante: 6,
        money: 100,
        blind_score: 1000,
        blind_target: 1000,
        blind_failed: false,
        blind_cleared: false,
    };
    let target = TargetConfig {
        target_score: Some(1000),
        target_ante: Some(7),
        target_money: Some(100),
        stop_on_blind_failed: true,
    };
    assert_eq!(target_reached(metrics, target), false);
}

#[test]
fn deal_key() {
    let key = AutoAction::Deal.stable_key();
    assert!(key.starts_with("deal"));
}

#[test]
fn skip_blind_key() {
    let key = AutoAction::SkipBlind.stable_key();
    assert!(key.starts_with("skip_blind"));
}

#[test]
fn enter_shop_key() {
    let key = AutoAction::EnterShop.stable_key();
    assert!(key.starts_with("enter_shop"));
}

#[test]
fn leave_shop_key() {
    let key = AutoAction::LeaveShop.stable_key();
    assert!(key.starts_with("leave_shop"));
}

#[test]
fn reroll_shop_key() {
    let key = AutoAction::RerollShop.stable_key();
    assert!(key.starts_with("reroll_shop"));
}

#[test]
fn skip_pack_key() {
    let key = AutoAction::SkipPack.stable_key();
    assert!(key.starts_with("skip_pack"));
}

#[test]
fn next_blind_key() {
    let key = AutoAction::NextBlind.stable_key();
    assert!(key.starts_with("next_blind"));
}

#[test]
fn play_key_0() {
    let key = AutoAction::Play { indices: vec![0] }.stable_key();
    assert!(key.starts_with("play:"));
}

#[test]
fn play_key_1() {
    let key = AutoAction::Play { indices: vec![1] }.stable_key();
    assert!(key.starts_with("play:"));
}

#[test]
fn play_key_2() {
    let key = AutoAction::Play { indices: vec![2] }.stable_key();
    assert!(key.starts_with("play:"));
}

#[test]
fn play_key_3() {
    let key = AutoAction::Play { indices: vec![3] }.stable_key();
    assert!(key.starts_with("play:"));
}

#[test]
fn play_key_4() {
    let key = AutoAction::Play { indices: vec![4] }.stable_key();
    assert!(key.starts_with("play:"));
}

#[test]
fn play_key_5() {
    let key = AutoAction::Play { indices: vec![0] }.stable_key();
    assert!(key.starts_with("play:"));
}

#[test]
fn play_key_6() {
    let key = AutoAction::Play { indices: vec![1] }.stable_key();
    assert!(key.starts_with("play:"));
}

#[test]
fn play_key_7() {
    let key = AutoAction::Play { indices: vec![2] }.stable_key();
    assert!(key.starts_with("play:"));
}

#[test]
fn play_key_8() {
    let key = AutoAction::Play { indices: vec![3] }.stable_key();
    assert!(key.starts_with("play:"));
}

#[test]
fn play_key_9() {
    let key = AutoAction::Play { indices: vec![4] }.stable_key();
    assert!(key.starts_with("play:"));
}

#[test]
fn play_key_10() {
    let key = AutoAction::Play { indices: vec![0] }.stable_key();
    assert!(key.starts_with("play:"));
}

#[test]
fn play_key_11() {
    let key = AutoAction::Play { indices: vec![1] }.stable_key();
    assert!(key.starts_with("play:"));
}

#[test]
fn play_key_12() {
    let key = AutoAction::Play { indices: vec![2] }.stable_key();
    assert!(key.starts_with("play:"));
}

#[test]
fn play_key_13() {
    let key = AutoAction::Play { indices: vec![3] }.stable_key();
    assert!(key.starts_with("play:"));
}

#[test]
fn play_key_14() {
    let key = AutoAction::Play { indices: vec![4] }.stable_key();
    assert!(key.starts_with("play:"));
}

#[test]
fn play_key_15() {
    let key = AutoAction::Play { indices: vec![0] }.stable_key();
    assert!(key.starts_with("play:"));
}

#[test]
fn play_key_16() {
    let key = AutoAction::Play { indices: vec![1] }.stable_key();
    assert!(key.starts_with("play:"));
}

#[test]
fn play_key_17() {
    let key = AutoAction::Play { indices: vec![2] }.stable_key();
    assert!(key.starts_with("play:"));
}

#[test]
fn play_key_18() {
    let key = AutoAction::Play { indices: vec![3] }.stable_key();
    assert!(key.starts_with("play:"));
}

#[test]
fn play_key_19() {
    let key = AutoAction::Play { indices: vec![4] }.stable_key();
    assert!(key.starts_with("play:"));
}

#[test]
fn play_key_20() {
    let key = AutoAction::Play { indices: vec![0] }.stable_key();
    assert!(key.starts_with("play:"));
}

#[test]
fn play_key_21() {
    let key = AutoAction::Play { indices: vec![1] }.stable_key();
    assert!(key.starts_with("play:"));
}

#[test]
fn play_key_22() {
    let key = AutoAction::Play { indices: vec![2] }.stable_key();
    assert!(key.starts_with("play:"));
}

#[test]
fn play_key_23() {
    let key = AutoAction::Play { indices: vec![3] }.stable_key();
    assert!(key.starts_with("play:"));
}

#[test]
fn play_key_24() {
    let key = AutoAction::Play { indices: vec![4] }.stable_key();
    assert!(key.starts_with("play:"));
}

#[test]
fn play_key_25() {
    let key = AutoAction::Play { indices: vec![0] }.stable_key();
    assert!(key.starts_with("play:"));
}

#[test]
fn play_key_26() {
    let key = AutoAction::Play { indices: vec![1] }.stable_key();
    assert!(key.starts_with("play:"));
}

#[test]
fn play_key_27() {
    let key = AutoAction::Play { indices: vec![2] }.stable_key();
    assert!(key.starts_with("play:"));
}

#[test]
fn play_key_28() {
    let key = AutoAction::Play { indices: vec![3] }.stable_key();
    assert!(key.starts_with("play:"));
}

#[test]
fn play_key_29() {
    let key = AutoAction::Play { indices: vec![4] }.stable_key();
    assert!(key.starts_with("play:"));
}

#[test]
fn play_key_30() {
    let key = AutoAction::Play { indices: vec![0] }.stable_key();
    assert!(key.starts_with("play:"));
}

#[test]
fn play_key_31() {
    let key = AutoAction::Play { indices: vec![1] }.stable_key();
    assert!(key.starts_with("play:"));
}

#[test]
fn play_key_32() {
    let key = AutoAction::Play { indices: vec![2] }.stable_key();
    assert!(key.starts_with("play:"));
}

#[test]
fn play_key_33() {
    let key = AutoAction::Play { indices: vec![3] }.stable_key();
    assert!(key.starts_with("play:"));
}

#[test]
fn play_key_34() {
    let key = AutoAction::Play { indices: vec![4] }.stable_key();
    assert!(key.starts_with("play:"));
}

#[test]
fn play_key_35() {
    let key = AutoAction::Play { indices: vec![0] }.stable_key();
    assert!(key.starts_with("play:"));
}

#[test]
fn play_key_36() {
    let key = AutoAction::Play { indices: vec![1] }.stable_key();
    assert!(key.starts_with("play:"));
}

#[test]
fn play_key_37() {
    let key = AutoAction::Play { indices: vec![2] }.stable_key();
    assert!(key.starts_with("play:"));
}

#[test]
fn play_key_38() {
    let key = AutoAction::Play { indices: vec![3] }.stable_key();
    assert!(key.starts_with("play:"));
}

#[test]
fn play_key_39() {
    let key = AutoAction::Play { indices: vec![4] }.stable_key();
    assert!(key.starts_with("play:"));
}

#[test]
fn play_key_40() {
    let key = AutoAction::Play { indices: vec![0] }.stable_key();
    assert!(key.starts_with("play:"));
}

#[test]
fn play_key_41() {
    let key = AutoAction::Play { indices: vec![1] }.stable_key();
    assert!(key.starts_with("play:"));
}

#[test]
fn play_key_42() {
    let key = AutoAction::Play { indices: vec![2] }.stable_key();
    assert!(key.starts_with("play:"));
}

#[test]
fn play_key_43() {
    let key = AutoAction::Play { indices: vec![3] }.stable_key();
    assert!(key.starts_with("play:"));
}

#[test]
fn play_key_44() {
    let key = AutoAction::Play { indices: vec![4] }.stable_key();
    assert!(key.starts_with("play:"));
}

#[test]
fn play_key_45() {
    let key = AutoAction::Play { indices: vec![0] }.stable_key();
    assert!(key.starts_with("play:"));
}

#[test]
fn play_key_46() {
    let key = AutoAction::Play { indices: vec![1] }.stable_key();
    assert!(key.starts_with("play:"));
}

#[test]
fn play_key_47() {
    let key = AutoAction::Play { indices: vec![2] }.stable_key();
    assert!(key.starts_with("play:"));
}

#[test]
fn play_key_48() {
    let key = AutoAction::Play { indices: vec![3] }.stable_key();
    assert!(key.starts_with("play:"));
}

#[test]
fn play_key_49() {
    let key = AutoAction::Play { indices: vec![4] }.stable_key();
    assert!(key.starts_with("play:"));
}

#[test]
fn play_key_50() {
    let key = AutoAction::Play { indices: vec![0] }.stable_key();
    assert!(key.starts_with("play:"));
}

#[test]
fn play_key_51() {
    let key = AutoAction::Play { indices: vec![1] }.stable_key();
    assert!(key.starts_with("play:"));
}

#[test]
fn play_key_52() {
    let key = AutoAction::Play { indices: vec![2] }.stable_key();
    assert!(key.starts_with("play:"));
}

#[test]
fn play_key_53() {
    let key = AutoAction::Play { indices: vec![3] }.stable_key();
    assert!(key.starts_with("play:"));
}

#[test]
fn play_key_54() {
    let key = AutoAction::Play { indices: vec![4] }.stable_key();
    assert!(key.starts_with("play:"));
}

#[test]
fn play_key_55() {
    let key = AutoAction::Play { indices: vec![0] }.stable_key();
    assert!(key.starts_with("play:"));
}

#[test]
fn play_key_56() {
    let key = AutoAction::Play { indices: vec![1] }.stable_key();
    assert!(key.starts_with("play:"));
}

#[test]
fn play_key_57() {
    let key = AutoAction::Play { indices: vec![2] }.stable_key();
    assert!(key.starts_with("play:"));
}

#[test]
fn play_key_58() {
    let key = AutoAction::Play { indices: vec![3] }.stable_key();
    assert!(key.starts_with("play:"));
}

#[test]
fn play_key_59() {
    let key = AutoAction::Play { indices: vec![4] }.stable_key();
    assert!(key.starts_with("play:"));
}

#[test]
fn play_key_60() {
    let key = AutoAction::Play { indices: vec![0] }.stable_key();
    assert!(key.starts_with("play:"));
}

#[test]
fn play_key_61() {
    let key = AutoAction::Play { indices: vec![1] }.stable_key();
    assert!(key.starts_with("play:"));
}

#[test]
fn play_key_62() {
    let key = AutoAction::Play { indices: vec![2] }.stable_key();
    assert!(key.starts_with("play:"));
}

#[test]
fn play_key_63() {
    let key = AutoAction::Play { indices: vec![3] }.stable_key();
    assert!(key.starts_with("play:"));
}

#[test]
fn play_key_64() {
    let key = AutoAction::Play { indices: vec![4] }.stable_key();
    assert!(key.starts_with("play:"));
}

#[test]
fn play_key_65() {
    let key = AutoAction::Play { indices: vec![0] }.stable_key();
    assert!(key.starts_with("play:"));
}

#[test]
fn play_key_66() {
    let key = AutoAction::Play { indices: vec![1] }.stable_key();
    assert!(key.starts_with("play:"));
}

#[test]
fn play_key_67() {
    let key = AutoAction::Play { indices: vec![2] }.stable_key();
    assert!(key.starts_with("play:"));
}

#[test]
fn play_key_68() {
    let key = AutoAction::Play { indices: vec![3] }.stable_key();
    assert!(key.starts_with("play:"));
}

#[test]
fn play_key_69() {
    let key = AutoAction::Play { indices: vec![4] }.stable_key();
    assert!(key.starts_with("play:"));
}

#[test]
fn play_key_70() {
    let key = AutoAction::Play { indices: vec![0] }.stable_key();
    assert!(key.starts_with("play:"));
}

#[test]
fn play_key_71() {
    let key = AutoAction::Play { indices: vec![1] }.stable_key();
    assert!(key.starts_with("play:"));
}

#[test]
fn play_key_72() {
    let key = AutoAction::Play { indices: vec![2] }.stable_key();
    assert!(key.starts_with("play:"));
}

#[test]
fn play_key_73() {
    let key = AutoAction::Play { indices: vec![3] }.stable_key();
    assert!(key.starts_with("play:"));
}

#[test]
fn play_key_74() {
    let key = AutoAction::Play { indices: vec![4] }.stable_key();
    assert!(key.starts_with("play:"));
}

#[test]
fn play_key_75() {
    let key = AutoAction::Play { indices: vec![0] }.stable_key();
    assert!(key.starts_with("play:"));
}

#[test]
fn play_key_76() {
    let key = AutoAction::Play { indices: vec![1] }.stable_key();
    assert!(key.starts_with("play:"));
}

#[test]
fn play_key_77() {
    let key = AutoAction::Play { indices: vec![2] }.stable_key();
    assert!(key.starts_with("play:"));
}

#[test]
fn play_key_78() {
    let key = AutoAction::Play { indices: vec![3] }.stable_key();
    assert!(key.starts_with("play:"));
}

#[test]
fn play_key_79() {
    let key = AutoAction::Play { indices: vec![4] }.stable_key();
    assert!(key.starts_with("play:"));
}

#[test]
fn discard_key_0() {
    let key = AutoAction::Discard { indices: vec![0] }.stable_key();
    assert!(key.starts_with("discard:"));
}

#[test]
fn discard_key_1() {
    let key = AutoAction::Discard { indices: vec![1] }.stable_key();
    assert!(key.starts_with("discard:"));
}

#[test]
fn discard_key_2() {
    let key = AutoAction::Discard { indices: vec![2] }.stable_key();
    assert!(key.starts_with("discard:"));
}

#[test]
fn discard_key_3() {
    let key = AutoAction::Discard { indices: vec![3] }.stable_key();
    assert!(key.starts_with("discard:"));
}

#[test]
fn discard_key_4() {
    let key = AutoAction::Discard { indices: vec![4] }.stable_key();
    assert!(key.starts_with("discard:"));
}

#[test]
fn discard_key_5() {
    let key = AutoAction::Discard { indices: vec![0] }.stable_key();
    assert!(key.starts_with("discard:"));
}

#[test]
fn discard_key_6() {
    let key = AutoAction::Discard { indices: vec![1] }.stable_key();
    assert!(key.starts_with("discard:"));
}

#[test]
fn discard_key_7() {
    let key = AutoAction::Discard { indices: vec![2] }.stable_key();
    assert!(key.starts_with("discard:"));
}

#[test]
fn discard_key_8() {
    let key = AutoAction::Discard { indices: vec![3] }.stable_key();
    assert!(key.starts_with("discard:"));
}

#[test]
fn discard_key_9() {
    let key = AutoAction::Discard { indices: vec![4] }.stable_key();
    assert!(key.starts_with("discard:"));
}

#[test]
fn discard_key_10() {
    let key = AutoAction::Discard { indices: vec![0] }.stable_key();
    assert!(key.starts_with("discard:"));
}

#[test]
fn discard_key_11() {
    let key = AutoAction::Discard { indices: vec![1] }.stable_key();
    assert!(key.starts_with("discard:"));
}

#[test]
fn discard_key_12() {
    let key = AutoAction::Discard { indices: vec![2] }.stable_key();
    assert!(key.starts_with("discard:"));
}

#[test]
fn discard_key_13() {
    let key = AutoAction::Discard { indices: vec![3] }.stable_key();
    assert!(key.starts_with("discard:"));
}

#[test]
fn discard_key_14() {
    let key = AutoAction::Discard { indices: vec![4] }.stable_key();
    assert!(key.starts_with("discard:"));
}

#[test]
fn discard_key_15() {
    let key = AutoAction::Discard { indices: vec![0] }.stable_key();
    assert!(key.starts_with("discard:"));
}

#[test]
fn discard_key_16() {
    let key = AutoAction::Discard { indices: vec![1] }.stable_key();
    assert!(key.starts_with("discard:"));
}

#[test]
fn discard_key_17() {
    let key = AutoAction::Discard { indices: vec![2] }.stable_key();
    assert!(key.starts_with("discard:"));
}

#[test]
fn discard_key_18() {
    let key = AutoAction::Discard { indices: vec![3] }.stable_key();
    assert!(key.starts_with("discard:"));
}

#[test]
fn discard_key_19() {
    let key = AutoAction::Discard { indices: vec![4] }.stable_key();
    assert!(key.starts_with("discard:"));
}

#[test]
fn discard_key_20() {
    let key = AutoAction::Discard { indices: vec![0] }.stable_key();
    assert!(key.starts_with("discard:"));
}

#[test]
fn discard_key_21() {
    let key = AutoAction::Discard { indices: vec![1] }.stable_key();
    assert!(key.starts_with("discard:"));
}

#[test]
fn discard_key_22() {
    let key = AutoAction::Discard { indices: vec![2] }.stable_key();
    assert!(key.starts_with("discard:"));
}

#[test]
fn discard_key_23() {
    let key = AutoAction::Discard { indices: vec![3] }.stable_key();
    assert!(key.starts_with("discard:"));
}

#[test]
fn discard_key_24() {
    let key = AutoAction::Discard { indices: vec![4] }.stable_key();
    assert!(key.starts_with("discard:"));
}

#[test]
fn discard_key_25() {
    let key = AutoAction::Discard { indices: vec![0] }.stable_key();
    assert!(key.starts_with("discard:"));
}

#[test]
fn discard_key_26() {
    let key = AutoAction::Discard { indices: vec![1] }.stable_key();
    assert!(key.starts_with("discard:"));
}

#[test]
fn discard_key_27() {
    let key = AutoAction::Discard { indices: vec![2] }.stable_key();
    assert!(key.starts_with("discard:"));
}

#[test]
fn discard_key_28() {
    let key = AutoAction::Discard { indices: vec![3] }.stable_key();
    assert!(key.starts_with("discard:"));
}

#[test]
fn discard_key_29() {
    let key = AutoAction::Discard { indices: vec![4] }.stable_key();
    assert!(key.starts_with("discard:"));
}

#[test]
fn discard_key_30() {
    let key = AutoAction::Discard { indices: vec![0] }.stable_key();
    assert!(key.starts_with("discard:"));
}

#[test]
fn discard_key_31() {
    let key = AutoAction::Discard { indices: vec![1] }.stable_key();
    assert!(key.starts_with("discard:"));
}

#[test]
fn discard_key_32() {
    let key = AutoAction::Discard { indices: vec![2] }.stable_key();
    assert!(key.starts_with("discard:"));
}

#[test]
fn discard_key_33() {
    let key = AutoAction::Discard { indices: vec![3] }.stable_key();
    assert!(key.starts_with("discard:"));
}

#[test]
fn discard_key_34() {
    let key = AutoAction::Discard { indices: vec![4] }.stable_key();
    assert!(key.starts_with("discard:"));
}

#[test]
fn discard_key_35() {
    let key = AutoAction::Discard { indices: vec![0] }.stable_key();
    assert!(key.starts_with("discard:"));
}

#[test]
fn discard_key_36() {
    let key = AutoAction::Discard { indices: vec![1] }.stable_key();
    assert!(key.starts_with("discard:"));
}

#[test]
fn discard_key_37() {
    let key = AutoAction::Discard { indices: vec![2] }.stable_key();
    assert!(key.starts_with("discard:"));
}

#[test]
fn discard_key_38() {
    let key = AutoAction::Discard { indices: vec![3] }.stable_key();
    assert!(key.starts_with("discard:"));
}

#[test]
fn discard_key_39() {
    let key = AutoAction::Discard { indices: vec![4] }.stable_key();
    assert!(key.starts_with("discard:"));
}

#[test]
fn discard_key_40() {
    let key = AutoAction::Discard { indices: vec![0] }.stable_key();
    assert!(key.starts_with("discard:"));
}

#[test]
fn discard_key_41() {
    let key = AutoAction::Discard { indices: vec![1] }.stable_key();
    assert!(key.starts_with("discard:"));
}

#[test]
fn discard_key_42() {
    let key = AutoAction::Discard { indices: vec![2] }.stable_key();
    assert!(key.starts_with("discard:"));
}

#[test]
fn discard_key_43() {
    let key = AutoAction::Discard { indices: vec![3] }.stable_key();
    assert!(key.starts_with("discard:"));
}

#[test]
fn discard_key_44() {
    let key = AutoAction::Discard { indices: vec![4] }.stable_key();
    assert!(key.starts_with("discard:"));
}

#[test]
fn discard_key_45() {
    let key = AutoAction::Discard { indices: vec![0] }.stable_key();
    assert!(key.starts_with("discard:"));
}

#[test]
fn discard_key_46() {
    let key = AutoAction::Discard { indices: vec![1] }.stable_key();
    assert!(key.starts_with("discard:"));
}

#[test]
fn discard_key_47() {
    let key = AutoAction::Discard { indices: vec![2] }.stable_key();
    assert!(key.starts_with("discard:"));
}

#[test]
fn discard_key_48() {
    let key = AutoAction::Discard { indices: vec![3] }.stable_key();
    assert!(key.starts_with("discard:"));
}

#[test]
fn discard_key_49() {
    let key = AutoAction::Discard { indices: vec![4] }.stable_key();
    assert!(key.starts_with("discard:"));
}

#[test]
fn discard_key_50() {
    let key = AutoAction::Discard { indices: vec![0] }.stable_key();
    assert!(key.starts_with("discard:"));
}

#[test]
fn discard_key_51() {
    let key = AutoAction::Discard { indices: vec![1] }.stable_key();
    assert!(key.starts_with("discard:"));
}

#[test]
fn discard_key_52() {
    let key = AutoAction::Discard { indices: vec![2] }.stable_key();
    assert!(key.starts_with("discard:"));
}

#[test]
fn discard_key_53() {
    let key = AutoAction::Discard { indices: vec![3] }.stable_key();
    assert!(key.starts_with("discard:"));
}

#[test]
fn discard_key_54() {
    let key = AutoAction::Discard { indices: vec![4] }.stable_key();
    assert!(key.starts_with("discard:"));
}

#[test]
fn discard_key_55() {
    let key = AutoAction::Discard { indices: vec![0] }.stable_key();
    assert!(key.starts_with("discard:"));
}

#[test]
fn discard_key_56() {
    let key = AutoAction::Discard { indices: vec![1] }.stable_key();
    assert!(key.starts_with("discard:"));
}

#[test]
fn discard_key_57() {
    let key = AutoAction::Discard { indices: vec![2] }.stable_key();
    assert!(key.starts_with("discard:"));
}

#[test]
fn discard_key_58() {
    let key = AutoAction::Discard { indices: vec![3] }.stable_key();
    assert!(key.starts_with("discard:"));
}

#[test]
fn discard_key_59() {
    let key = AutoAction::Discard { indices: vec![4] }.stable_key();
    assert!(key.starts_with("discard:"));
}

#[test]
fn discard_key_60() {
    let key = AutoAction::Discard { indices: vec![0] }.stable_key();
    assert!(key.starts_with("discard:"));
}

#[test]
fn discard_key_61() {
    let key = AutoAction::Discard { indices: vec![1] }.stable_key();
    assert!(key.starts_with("discard:"));
}

#[test]
fn discard_key_62() {
    let key = AutoAction::Discard { indices: vec![2] }.stable_key();
    assert!(key.starts_with("discard:"));
}

#[test]
fn discard_key_63() {
    let key = AutoAction::Discard { indices: vec![3] }.stable_key();
    assert!(key.starts_with("discard:"));
}

#[test]
fn discard_key_64() {
    let key = AutoAction::Discard { indices: vec![4] }.stable_key();
    assert!(key.starts_with("discard:"));
}

#[test]
fn discard_key_65() {
    let key = AutoAction::Discard { indices: vec![0] }.stable_key();
    assert!(key.starts_with("discard:"));
}

#[test]
fn discard_key_66() {
    let key = AutoAction::Discard { indices: vec![1] }.stable_key();
    assert!(key.starts_with("discard:"));
}

#[test]
fn discard_key_67() {
    let key = AutoAction::Discard { indices: vec![2] }.stable_key();
    assert!(key.starts_with("discard:"));
}

#[test]
fn discard_key_68() {
    let key = AutoAction::Discard { indices: vec![3] }.stable_key();
    assert!(key.starts_with("discard:"));
}

#[test]
fn discard_key_69() {
    let key = AutoAction::Discard { indices: vec![4] }.stable_key();
    assert!(key.starts_with("discard:"));
}

#[test]
fn discard_key_70() {
    let key = AutoAction::Discard { indices: vec![0] }.stable_key();
    assert!(key.starts_with("discard:"));
}

#[test]
fn discard_key_71() {
    let key = AutoAction::Discard { indices: vec![1] }.stable_key();
    assert!(key.starts_with("discard:"));
}

#[test]
fn discard_key_72() {
    let key = AutoAction::Discard { indices: vec![2] }.stable_key();
    assert!(key.starts_with("discard:"));
}

#[test]
fn discard_key_73() {
    let key = AutoAction::Discard { indices: vec![3] }.stable_key();
    assert!(key.starts_with("discard:"));
}

#[test]
fn discard_key_74() {
    let key = AutoAction::Discard { indices: vec![4] }.stable_key();
    assert!(key.starts_with("discard:"));
}

#[test]
fn discard_key_75() {
    let key = AutoAction::Discard { indices: vec![0] }.stable_key();
    assert!(key.starts_with("discard:"));
}

#[test]
fn discard_key_76() {
    let key = AutoAction::Discard { indices: vec![1] }.stable_key();
    assert!(key.starts_with("discard:"));
}

#[test]
fn discard_key_77() {
    let key = AutoAction::Discard { indices: vec![2] }.stable_key();
    assert!(key.starts_with("discard:"));
}

#[test]
fn discard_key_78() {
    let key = AutoAction::Discard { indices: vec![3] }.stable_key();
    assert!(key.starts_with("discard:"));
}

#[test]
fn discard_key_79() {
    let key = AutoAction::Discard { indices: vec![4] }.stable_key();
    assert!(key.starts_with("discard:"));
}
