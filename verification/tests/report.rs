use sccache_dist::dist::UpdateJobStateResult;
use sccache_dist::report::{
    ReportStep, StateReport, JOB_STATE_REPORT_ATTEMPT, JOB_STATE_REPORT_DEADLINE,
    JOB_STATE_REPORT_RETRY_SLEEP,
};

const SEC: u64 = 1_000_000_000;

#[test]
fn a_report_has_five_minutes() {
    assert_eq!(JOB_STATE_REPORT_DEADLINE, 300 * SEC);
    assert_eq!(StateReport::new(7 * SEC).deadline, 307 * SEC);
}

#[test]
fn replies_end_a_report() {
    let report = StateReport::new(0);
    assert_eq!(
        report.answered::<&str>(Ok(UpdateJobStateResult::Success), 900 * SEC),
        ReportStep::Done
    );
    let fail = UpdateJobStateResult::Fail { msg: "no".to_owned() };
    assert_eq!(
        report.answered::<&str>(Ok(fail), SEC),
        ReportStep::Rejected { msg: "no".to_owned() }
    );
}

#[test]
fn failures_are_retried_while_there_is_time() {
    let report = StateReport::new(0);
    let retry = ReportStep::RetryAfter { sleep: 5 * SEC };
    assert_eq!(report.answered(Err("down"), 0), retry);
    assert_eq!(report.answered(Err("down"), 285 * SEC - 1), retry);
    let over = ReportStep::DeadlineElapsed { error: "down" };
    assert_eq!(report.answered(Err("down"), 285 * SEC), over);
    assert_eq!(report.answered(Err("down"), 400 * SEC), over);
}

#[test]
fn retries_end_in_time_and_are_few() {
    let report = StateReport::new(0);
    let mut now = 0;
    let mut retries = 0;
    while let ReportStep::RetryAfter { sleep } = report.answered(Err("down"), now) {
        assert!(now + sleep + JOB_STATE_REPORT_ATTEMPT < report.deadline);
        now += sleep;
        retries += 1;
    }
    assert_eq!(retries, 57);
    assert_eq!(now, 57 * JOB_STATE_REPORT_RETRY_SLEEP);
}
