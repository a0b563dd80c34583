use otp_cop::orchestrator::{
    collect_outcomes, exit_status, select_services, AuditOutcome, StartupFault,
};
use otp_cop::service::{Backend, CreateServiceResult, GetUsersError, GetUsersResult, User};
use otp_cop::slack::SlackService;

fn s(x: &str) -> String {
    x.to_string()
}

fn success(name: &str, users: Vec<&str>) -> AuditOutcome {
    Ok(GetUsersResult {
        service_name: s(name),
        users: users
            .into_iter()
            .map(|n| User { name: s(n), email: None, details: None })
            .collect(),
    })
}

fn failure(name: &str, message: &str) -> AuditOutcome {
    Err(GetUsersError { service_name: s(name), error_message: s(message) })
}

fn outcome_name(o: &AuditOutcome) -> String {
    match o {
        Ok(r) => r.service_name.clone(),
        Err(e) => e.service_name.clone(),
    }
}

#[test]
fn collection_restores_submission_order() {
    // Arrivals in completion order 2, 0, 1: the report is in
    // submission order regardless.
    let arrivals = vec![
        (2usize, success("chat", vec![])),
        (0usize, failure("iam", "boom")),
        (1usize, success("code", vec!["alice"])),
    ];
    let out = collect_outcomes(3, arrivals).expect("full coverage collects");
    assert_eq!(out.len(), 3);
    let names: Vec<String> = out.iter().map(outcome_name).collect();
    assert_eq!(names, vec![s("iam"), s("code"), s("chat")]);
}

#[test]
fn collection_is_arrival_order_independent() {
    let build = |order: &[usize]| {
        let arrivals: Vec<(usize, AuditOutcome)> = order
            .iter()
            .map(|&i| (i, success(&format!("svc{}", i), vec![])))
            .collect();
        collect_outcomes(3, arrivals).expect("full coverage collects")
    };
    let a = build(&[0, 1, 2]);
    let b = build(&[2, 1, 0]);
    let names_a: Vec<String> = a.iter().map(outcome_name).collect();
    let names_b: Vec<String> = b.iter().map(outcome_name).collect();
    assert_eq!(names_a, names_b);
}

#[test]
fn collection_rejects_lost_duplicate_or_alien_slots() {
    // A lost slot: backend 1 never reports.
    assert!(collect_outcomes(2, vec![(0usize, success("a", vec![]))]).is_none());
    // A duplicate slot.
    assert!(collect_outcomes(
        2,
        vec![
            (0usize, success("a", vec![])),
            (0usize, success("a", vec![])),
            (1usize, success("b", vec![])),
        ]
    )
    .is_none());
    // A tag out of range.
    assert!(collect_outcomes(1, vec![(1usize, success("a", vec![]))]).is_none());
    // The empty run collects to the empty report.
    assert_eq!(collect_outcomes(0, vec![]).expect("empty run collects").len(), 0);
}

#[test]
fn exit_status_aggregates_outcomes() {
    // All successes with empty lists: nothing to report.
    assert_eq!(exit_status(&vec![success("a", vec![]), success("b", vec![])]), 0);
    // Any failure is alarming.
    assert_eq!(exit_status(&vec![success("a", vec![]), failure("b", "down")]), 2);
    // Any success with at least one flagged account is alarming.
    assert_eq!(exit_status(&vec![success("a", vec!["alice"]), success("b", vec![])]), 2);
    // No backends at all: nothing to report.
    assert_eq!(exit_status(&vec![]), 0);
}

#[test]
fn startup_selects_ready_backends_in_order() {
    let results = vec![
        CreateServiceResult::NotConfigured,
        CreateServiceResult::Ready(Backend::Slack(SlackService { token: s("t1") })),
        CreateServiceResult::Ready(Backend::Slack(SlackService { token: s("t2") })),
    ];
    let services = select_services(results).expect("ready backends are selected");
    assert_eq!(services.len(), 2);
    match (&services[0], &services[1]) {
        (Backend::Slack(a), Backend::Slack(b)) => {
            assert_eq!(a.token, "t1");
            assert_eq!(b.token, "t2");
        }
        _ => panic!("expected the two chat-service backends"),
    }
}

#[test]
fn startup_aborts_on_missing_fields_before_any_backend() {
    let results = vec![
        CreateServiceResult::Ready(Backend::Slack(SlackService { token: s("t") })),
        CreateServiceResult::MissingRequiredFields(vec![s("github-password")]),
        CreateServiceResult::MissingRequiredFields(vec![s("aws-secret-key")]),
    ];
    match select_services(results) {
        Err(StartupFault::MissingArguments(v)) => {
            // The first misconfigured factory is reported.
            assert_eq!(v, vec![s("github-password")]);
            assert_eq!(StartupFault::MissingArguments(v).exit_status(), 1);
        }
        _ => panic!("expected a startup fault"),
    }
}

#[test]
fn startup_with_nothing_configured_is_a_fault() {
    let results = vec![CreateServiceResult::NotConfigured, CreateServiceResult::NotConfigured];
    match select_services(results) {
        Err(StartupFault::NoServicesConfigured) => {
            assert_eq!(StartupFault::NoServicesConfigured.exit_status(), 1);
        }
        _ => panic!("expected a startup fault"),
    }
}
