use axum_stack::health::{
    CheckReport, HealthState, OverallStatus, Readiness, detailed, liveness, readiness, ready_status,
};

fn report(name: &str, state: HealthState, message: Option<&str>) -> CheckReport {
    CheckReport { name: name.to_string(), state, message: message.map(|m| m.to_string()) }
}

#[test]
fn liveness_is_always_alive() {
    assert_eq!(liveness(), "alive");
}

#[test]
fn readiness_is_ok_when_checks_pass() {
    let r = readiness(Some(HealthState::Healthy));
    assert_eq!(r, Readiness::Ready);
    assert_eq!(r.status_code(), 200);
    assert_eq!(ready_status(), "ready");
}

#[test]
fn readiness_is_ok_when_degraded() {
    assert_eq!(readiness(Some(HealthState::Degraded)), Readiness::Ready);
}

#[test]
fn readiness_is_503_when_a_check_fails() {
    let r = readiness(Some(HealthState::Unhealthy));
    assert_eq!(r, Readiness::Unavailable);
    assert_eq!(r.status_code(), 503);
}

#[test]
fn readiness_is_503_when_the_registry_fails() {
    assert_eq!(readiness(None), Readiness::Unavailable);
}

#[test]
fn detailed_reports_each_check() {
    let reports = vec![
        report("ok-check", HealthState::Healthy, None),
        report("bad-check", HealthState::Unhealthy, None),
    ];
    let d = detailed(&reports);
    assert_eq!(d.status, OverallStatus::Degraded);
    assert_eq!(d.status.as_str(), "degraded");
    assert_eq!(d.checks.len(), 2);
    assert_eq!(d.checks[0].name, "ok-check");
    assert!(d.checks[0].healthy);
    assert_eq!(d.checks[0].message, None);
    assert_eq!(d.checks[1].name, "bad-check");
    assert!(!d.checks[1].healthy);
    assert!(d.checks[1].message.is_none());
}

#[test]
fn detailed_is_healthy_with_no_checks() {
    let d = detailed(&[]);
    assert_eq!(d.status, OverallStatus::Healthy);
    assert_eq!(d.status.as_str(), "healthy");
    assert!(d.checks.is_empty());
}

#[test]
fn degraded_check_makes_detailed_degraded() {
    let d = detailed(&[
        report("a", HealthState::Healthy, None),
        report("b", HealthState::Degraded, Some("slow")),
    ]);
    assert_eq!(d.status, OverallStatus::Degraded);
    assert!(d.checks[0].healthy);
    assert!(!d.checks[1].healthy);
    assert_eq!(d.checks[1].message.as_deref(), Some("slow"));
}

#[test]
fn all_healthy_checks_make_detailed_healthy() {
    let d = detailed(&[report("a", HealthState::Healthy, Some("fine")), report("b", HealthState::Healthy, None)]);
    assert_eq!(d.status, OverallStatus::Healthy);
    assert_eq!(d.checks.len(), 2);
}

#[test]
fn health_state_predicates() {
    assert!(HealthState::Healthy.is_healthy());
    assert!(!HealthState::Degraded.is_healthy());
    assert!(!HealthState::Unhealthy.is_healthy());
    assert!(HealthState::Healthy.is_ready());
    assert!(HealthState::Degraded.is_ready());
    assert!(!HealthState::Unhealthy.is_ready());
}
