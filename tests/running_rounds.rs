use postman::alert::SHADOW_STOPPED_ALERT;
use postman::check_running::{
    calc_gap, latest_mmr_leaf, shadow_count_url, LivenessChecker, RUNNING_DELAY_MS,
    RUNNING_ERROR_DELAY_MS, STOPPED_DELAY_MS,
};
use postman::error::CheckError;

const SHADOW: &str = "http://shadow.example:3000";

#[test]
fn gap_over_threshold_alerts_then_ten_minutes() {
    let c = LivenessChecker::new(SHADOW, 40);
    let step = c.step(Ok("100".to_string()), Ok(150));
    assert_eq!(step.gap, Some(50));
    let alert = step.alert.expect("an alert");
    assert_eq!(alert.alert_name, "ShadowMayStopped");
    assert_eq!(alert.alert_name, SHADOW_STOPPED_ALERT);
    assert_eq!(
        alert.labels,
        vec![
            ("shadow".to_string(), SHADOW.to_string()),
            ("gap".to_string(), "50".to_string())
        ]
    );
    assert_eq!(step.delay_ms, 600_000);
    assert_eq!(step.delay_ms, STOPPED_DELAY_MS);
}

#[test]
fn gap_equal_to_threshold_does_not_alert() {
    let c = LivenessChecker::new(SHADOW, 50);
    let step = c.step(Ok("100".to_string()), Ok(150));
    assert_eq!(step.gap, Some(50));
    assert!(step.alert.is_none());
    assert!(step.error.is_none());
    assert_eq!(step.delay_ms, 60_000);
    assert_eq!(step.delay_ms, RUNNING_DELAY_MS);
}

#[test]
fn gap_one_over_threshold_alerts() {
    let c = LivenessChecker::new(SHADOW, 49);
    assert!(c.step(Ok("100".to_string()), Ok(150)).alert.is_some());
}

#[test]
fn shadow_ahead_of_chain_is_no_gap() {
    assert_eq!(calc_gap(150, 100), 50);
    assert_eq!(calc_gap(100, 100), 0);
    assert_eq!(calc_gap(100, 150), 0);
    let c = LivenessChecker::new(SHADOW, 0);
    let step = c.step(Ok("200".to_string()), Ok(150));
    assert_eq!(step.gap, Some(0));
    assert!(step.alert.is_none());
}

#[test]
fn count_fetch_error_waits_ten_minutes() {
    let c = LivenessChecker::new(SHADOW, 40);
    let step = c.step(Err("connection reset".to_string()), Ok(150));
    assert_eq!(step.error, Some(CheckError::Fetch("connection reset".to_string())));
    assert_eq!(step.gap, None);
    assert!(step.alert.is_none());
    assert_eq!(step.delay_ms, RUNNING_ERROR_DELAY_MS);
    assert_eq!(step.delay_ms, 600_000);
}

#[test]
fn unparsable_count_is_bad_count() {
    let c = LivenessChecker::new(SHADOW, 40);
    let step = c.step(Ok("n/a".to_string()), Ok(150));
    assert_eq!(step.error, Some(CheckError::BadCount("n/a".to_string())));
    assert_eq!(step.delay_ms, 600_000);
    assert_eq!(latest_mmr_leaf("12"), Ok(12));
    assert_eq!(latest_mmr_leaf("-3"), Err(CheckError::BadCount("-3".to_string())));
}

#[test]
fn chain_failure_is_rpc_error() {
    let c = LivenessChecker::new(SHADOW, 40);
    let step = c.step(Ok("100".to_string()), Err("no latest block".to_string()));
    assert_eq!(step.error, Some(CheckError::Rpc("no latest block".to_string())));
    assert_eq!(step.delay_ms, 600_000);
}

#[test]
fn count_url() {
    assert_eq!(shadow_count_url(SHADOW), "http://shadow.example:3000/ethereum/count");
    assert_eq!(LivenessChecker::new("http://s", 1).count_url(), "http://s/ethereum/count");
}
