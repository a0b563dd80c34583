use otp_cop::aws::{backoff_ms, Action, AWSService, PollDecision, ReportResult};
use otp_cop::github::{
    next_url, FetchState, FetchStep, GithubMember, GithubProfile, GithubRecord, GithubService,
    PageResult,
};
use otp_cop::report::repeat_char;
use otp_cop::slack::{annotation, SlackMember, SlackService, SlackUserListResponse};

fn s(x: &str) -> String {
    x.to_string()
}

fn member(name: &str, deleted: bool, is_bot: Option<bool>, has_2fa: Option<bool>) -> SlackMember {
    SlackMember {
        name: s(name),
        deleted,
        is_bot,
        has_2fa,
        email: Some(s("who@example.com")),
        is_owner: Some(false),
        is_admin: Some(false),
    }
}

#[test]
fn slack_flagging_predicate() {
    let svc = SlackService { token: s("t") };
    let response = SlackUserListResponse {
        ok: true,
        error: None,
        members: vec![
            member("deleted-user", true, Some(false), Some(false)),
            member("bot-user", false, Some(true), Some(false)),
            member("protected-user", false, Some(false), Some(true)),
            member("plain-user", false, Some(false), Some(false)),
            member("bare-user", false, None, None),
        ],
    };
    let out = svc.get_users(&response).expect("ok response succeeds");
    assert_eq!(out.service_name, "Slack");
    let names: Vec<String> = out.users.iter().map(|u| u.name.clone()).collect();
    // Deleted, bot, and protected members are never flagged; a plain
    // member is flagged whether its flags are false or absent.
    assert_eq!(names, vec![s("plain-user"), s("bare-user")]);
    assert_eq!(out.users[0].email, Some(s("who@example.com")));
}

#[test]
fn slack_empty_member_list_succeeds_empty() {
    let svc = SlackService { token: s("t") };
    let response = SlackUserListResponse { ok: true, error: None, members: vec![] };
    let out = svc.get_users(&response).expect("ok response succeeds");
    assert_eq!(out.service_name, "Slack");
    assert!(out.users.is_empty());
}

#[test]
fn slack_annotation_mapping() {
    assert_eq!(annotation(true, true), Some(s("Owner/Admin")));
    assert_eq!(annotation(true, false), Some(s("Owner")));
    assert_eq!(annotation(false, true), Some(s("Admin")));
    assert_eq!(annotation(false, false), None);

    let svc = SlackService { token: s("t") };
    let mut owner_admin = member("boss", false, Some(false), Some(false));
    owner_admin.is_owner = Some(true);
    owner_admin.is_admin = Some(true);
    let response =
        SlackUserListResponse { ok: true, error: None, members: vec![owner_admin] };
    let out = svc.get_users(&response).expect("ok response succeeds");
    assert_eq!(out.users[0].details, Some(s("Owner/Admin")));
}

#[test]
fn slack_error_response_is_a_failure() {
    let svc = SlackService { token: s("t") };
    let response = SlackUserListResponse {
        ok: false,
        error: Some(s("invalid_auth")),
        members: vec![],
    };
    let e = svc.get_users(&response).expect_err("error response fails");
    assert_eq!(e.service_name, "Slack");
    assert_eq!(e.error_message, "Slack API error: invalid_auth");
}

fn github_svc(name_check: bool) -> GithubService {
    GithubService {
        endpoint: s("https://api.github.com"),
        org: s("acme"),
        username: s("u"),
        password: s("p"),
        name_check,
    }
}

fn rec(login: &str) -> GithubRecord {
    GithubRecord { member: GithubMember { login: s(login) }, profile: None }
}

fn page(logins: &[&str], next: Option<&str>) -> PageResult {
    PageResult::Page {
        records: logins.iter().map(|l| rec(l)).collect(),
        link_header: next.map(|u| {
            format!("<{}>; rel=\"next\", <https://api.github.com/x?page=9>; rel=\"last\"", u)
        }),
    }
}

fn advance(svc: &GithubService, st: FetchState, p: PageResult) -> FetchState {
    match svc.on_page(st, p) {
        FetchStep::Continue(next) => next,
        FetchStep::Finished(_) => panic!("expected the chain to continue"),
    }
}

#[test]
fn github_pagination_merges_three_pages_in_order() {
    let svc = github_svc(false);
    let st = svc.start();
    assert_eq!(
        st.cursor.as_deref(),
        Some("https://api.github.com/orgs/acme/members?filter=2fa_disabled")
    );
    let st = advance(&svc, st, page(&["alice", "bob"], Some("https://api.github.com/x?page=2")));
    assert_eq!(st.cursor.as_deref(), Some("https://api.github.com/x?page=2"));
    let st = advance(&svc, st, page(&["carol"], Some("https://api.github.com/x?page=3")));
    assert_eq!(st.cursor.as_deref(), Some("https://api.github.com/x?page=3"));
    // Page 3 declares no "next" relation: the chain terminates.
    match svc.on_page(st, page(&["dave"], None)) {
        FetchStep::Finished(Ok(out)) => {
            assert_eq!(out.service_name, "Github");
            let names: Vec<String> = out.users.iter().map(|u| u.name.clone()).collect();
            assert_eq!(names, vec![s("alice"), s("bob"), s("carol"), s("dave")]);
        }
        _ => panic!("expected a successful finish"),
    }
}

#[test]
fn github_single_empty_page_succeeds_empty() {
    let svc = github_svc(false);
    let st = svc.start();
    match svc.on_page(st, page(&[], None)) {
        FetchStep::Finished(Ok(out)) => {
            assert_eq!(out.service_name, "Github");
            assert!(out.users.is_empty());
        }
        _ => panic!("expected a successful finish"),
    }
}

#[test]
fn github_error_mid_pagination_discards_earlier_pages() {
    let svc = github_svc(false);
    let st = svc.start();
    let st = advance(&svc, st, page(&["alice"], Some("https://api.github.com/x?page=2")));
    assert_eq!(st.accumulated.len(), 1);
    let e = match svc.on_page(
        st,
        PageResult::ApiError {
            message: s("API rate limit exceeded"),
            documentation_url: s("https://docs.example.com/rate-limit"),
        },
    ) {
        FetchStep::Finished(Err(e)) => e,
        _ => panic!("expected a failure finish"),
    };
    // The failure carries no accounts: page 1's accounts are discarded.
    assert_eq!(e.service_name, "Github");
    assert_eq!(
        e.error_message,
        "API rate limit exceeded\n  See https://docs.example.com/rate-limit"
    );
}

#[test]
fn github_transport_fault_is_a_failure() {
    let svc = github_svc(false);
    let st = svc.start();
    match svc.on_page(st, PageResult::TransportError { message: s("unexpected status code 502") }) {
        FetchStep::Finished(Err(e)) => {
            assert_eq!(e.service_name, "Github");
            assert_eq!(e.error_message, "unexpected status code 502");
        }
        _ => panic!("expected a failure finish"),
    }
}

#[test]
fn github_name_check_flags_missing_display_names() {
    let svc = github_svc(true);
    let with_profile = |login: &str, name: Option<&str>, email: Option<&str>| GithubRecord {
        member: GithubMember { login: s(login) },
        profile: Some(Ok(GithubProfile {
            name: name.map(|x| s(x)),
            email: email.map(|x| s(x)),
        })),
    };
    let records = vec![
        with_profile("named", Some("Ann Example"), Some("ann@example.com")),
        with_profile("empty-name", Some(""), None),
        with_profile("no-name", None, Some("nn@example.com")),
    ];
    let st = svc.start();
    match svc.on_page(st, PageResult::Page { records, link_header: None }) {
        FetchStep::Finished(Ok(out)) => {
            let names: Vec<String> = out.users.iter().map(|u| u.name.clone()).collect();
            assert_eq!(names, vec![s("empty-name"), s("no-name")]);
            assert_eq!(out.users[1].email, Some(s("nn@example.com")));
        }
        _ => panic!("expected a successful finish"),
    }
}

#[test]
fn github_profile_lookup_failure_fails_the_whole_audit() {
    let svc = github_svc(true);
    let records = vec![
        rec("fine"),
        GithubRecord {
            member: GithubMember { login: s("broken") },
            profile: Some(Err(s("user lookup returned status 500"))),
        },
    ];
    let st = svc.start();
    match svc.on_page(st, PageResult::Page { records, link_header: None }) {
        FetchStep::Finished(Err(e)) => {
            assert_eq!(e.error_message, "user lookup returned status 500");
        }
        _ => panic!("expected a failure finish"),
    }
}

#[test]
fn link_header_next_relation() {
    assert_eq!(
        next_url(
            "<https://api.github.com/organizations/1/members?page=2>; rel=\"next\", \
             <https://api.github.com/organizations/1/members?page=5>; rel=\"last\""
        ),
        Some(s("https://api.github.com/organizations/1/members?page=2"))
    );
    // Only the "next" relation is consulted.
    assert_eq!(
        next_url("<https://api.github.com/x?page=1>; rel=\"first\", <https://api.github.com/x?page=5>; rel=\"last\""),
        None
    );
    assert_eq!(next_url(""), None);
    assert_eq!(next_url("nonsense"), None);
}

fn encode_base64(bytes: &[u8]) -> String {
    const ALPHABET: &[u8] = b"ABCDEFGHIJKLMNOPQRSTUVWXYZabcdefghijklmnopqrstuvwxyz0123456789+/";
    let mut out = String::new();
    for chunk in bytes.chunks(3) {
        let b = [
            chunk[0],
            if chunk.len() > 1 { chunk[1] } else { 0 },
            if chunk.len() > 2 { chunk[2] } else { 0 },
        ];
        let n = ((b[0] as u32) << 16) | ((b[1] as u32) << 8) | (b[2] as u32);
        let idx = [(n >> 18) & 63, (n >> 12) & 63, (n >> 6) & 63, n & 63];
        for (i, x) in idx.iter().enumerate() {
            if i <= chunk.len() {
                out.push(ALPHABET[*x as usize] as char);
            } else {
                out.push('=');
            }
        }
    }
    out
}

fn report_row(user: &str, arn: &str, mfa: &str) -> String {
    let mut cols = vec![user.to_string(), arn.to_string()];
    cols.extend(std::iter::repeat("x".to_string()).take(5));
    cols.push(mfa.to_string());
    cols.extend(std::iter::repeat("x".to_string()).take(14));
    cols.join(",")
}

#[test]
fn aws_report_decodes_and_flags_accounts_without_mfa() {
    let svc = AWSService { access_key_id: s("AKID"), secret_key: s("sk123") };
    let header: Vec<String> = (0..22).map(|i| format!("col{}", i)).collect();
    let csv = format!(
        "{}\n{}\n{}\n",
        header.join(","),
        report_row("alice", "arn:alice", "true"),
        report_row("bob", "arn:bob", "false"),
    );
    let content = encode_base64(csv.as_bytes());
    let out = svc.get_users(&content).expect("well-formed report succeeds");
    assert_eq!(out.service_name, "aws");
    assert_eq!(out.users.len(), 1);
    assert_eq!(out.users[0].name, "bob");
    assert_eq!(out.users[0].details, Some(s("arn:bob")));
    assert_eq!(out.users[0].email, None);
}

#[test]
fn aws_malformed_report_layers_become_failures() {
    let svc = AWSService { access_key_id: s("AKID"), secret_key: s("sk123") };

    let e = svc.get_users("!!! not base64 !!!").expect_err("bad base64 fails");
    assert_eq!(e.service_name, "aws");
    assert_eq!(e.error_message, "credential report is not valid base64");

    let e = svc.get_users("").expect_err("an empty report fails");
    assert_eq!(e.error_message, "credential report is empty");

    let bad_row = format!("{}\nonly,three,cols\n", report_row("h", "h", "h"));
    let e = svc.get_users(&encode_base64(bad_row.as_bytes())).expect_err("short row fails");
    assert_eq!(e.error_message, "malformed credential report row");

    let bad_bool = format!(
        "{}\n{}\n",
        report_row("h", "h", "h"),
        report_row("alice", "arn:alice", "maybe")
    );
    let e = svc.get_users(&encode_base64(bad_bool.as_bytes())).expect_err("bad boolean fails");
    assert_eq!(e.error_message, "malformed credential report row");
}

#[test]
fn aws_poll_decisions_and_backoff() {
    let svc = AWSService { access_key_id: s("AKID"), secret_key: s("sk123") };
    assert!(matches!(
        svc.poll_decision(Some(ReportResult::COMPLETE), 0),
        PollDecision::Fetch
    ));
    match svc.poll_decision(Some(ReportResult::STARTED), 0) {
        PollDecision::Retry { delay_ms } => assert_eq!(delay_ms, 500),
        _ => panic!("expected a retry"),
    }
    match svc.poll_decision(Some(ReportResult::STARTED), 3) {
        PollDecision::Retry { delay_ms } => assert_eq!(delay_ms, 4000),
        _ => panic!("expected a retry"),
    }
    match svc.poll_decision(Some(ReportResult::STARTED), 7) {
        PollDecision::Fail { message } => {
            assert_eq!(message, "credential report was not ready within the retry budget")
        }
        _ => panic!("expected exhaustion"),
    }
    match svc.poll_decision(None, 0) {
        PollDecision::Fail { message } => {
            assert_eq!(message, "unrecognized credential report state")
        }
        _ => panic!("expected a protocol fault"),
    }
    assert_eq!(backoff_ms(0), 500);
    assert_eq!(backoff_ms(7), 64000);
}

#[test]
fn aws_protocol_strings() {
    assert_eq!(Action::GenerateCredentialReport.as_str(), "GenerateCredentialReport");
    assert_eq!(Action::GetCredentialReport.as_str(), "GetCredentialReport");
    assert!(matches!(ReportResult::from_str("STARTED"), Some(ReportResult::STARTED)));
    assert!(matches!(ReportResult::from_str("COMPLETE"), Some(ReportResult::COMPLETE)));
    assert!(ReportResult::from_str("PENDING").is_none());
    let svc = AWSService { access_key_id: s("AKID"), secret_key: s("sk123") };
    let params = svc.request_params(Action::GenerateCredentialReport);
    assert_eq!(params[0], (s("Version"), s("2010-05-08")));
    assert_eq!(params[1], (s("Action"), s("GenerateCredentialReport")));
}

#[test]
fn repeat_char_cycles_to_length() {
    assert_eq!(repeat_char("=", 5), "=====");
    assert_eq!(repeat_char("ab", 5), "ababa");
    assert_eq!(repeat_char("", 3), "");
    assert_eq!(repeat_char("=", 0), "");
}
