use otp_cop::service::{Backend, CreateServiceResult, OptDef};
use otp_cop::{AWSServiceFactory, GithubServiceFactory, SlackServiceFactory};

fn s(x: &str) -> String {
    x.to_string()
}

#[test]
fn aws_factory_ready_binds_both_fields() {
    let r = AWSServiceFactory.create_service(Some(s("AKID")), Some(s("sk123")));
    match r {
        CreateServiceResult::Ready(Backend::Aws(svc)) => {
            assert_eq!(svc.access_key_id, "AKID");
            assert_eq!(svc.secret_key, "sk123");
        }
        _ => panic!("expected a ready cloud-IAM backend"),
    }
}

#[test]
fn aws_factory_zero_fields_is_not_configured() {
    let r = AWSServiceFactory.create_service(None, None);
    assert!(matches!(r, CreateServiceResult::NotConfigured));
}

#[test]
fn aws_factory_missing_exactly_one_field_names_it() {
    let r = AWSServiceFactory.create_service(Some(s("AKID")), None);
    match r {
        CreateServiceResult::MissingRequiredFields(v) => {
            assert_eq!(v, vec![s("aws-secret-key")]);
        }
        _ => panic!("expected missing required fields"),
    }
    let r = AWSServiceFactory.create_service(None, Some(s("sk123")));
    match r {
        CreateServiceResult::MissingRequiredFields(v) => {
            assert_eq!(v, vec![s("aws-access-key-id")]);
        }
        _ => panic!("expected missing required fields"),
    }
}

#[test]
fn github_factory_ready_defaults_endpoint() {
    let r = GithubServiceFactory.create_service(None, Some(s("acme")), Some(s("u")), Some(s("p")), false);
    match r {
        CreateServiceResult::Ready(Backend::Github(svc)) => {
            assert_eq!(svc.endpoint, "https://api.github.com");
            assert_eq!(svc.org, "acme");
            assert_eq!(svc.username, "u");
            assert_eq!(svc.password, "p");
            assert!(!svc.name_check);
        }
        _ => panic!("expected a ready code-host backend"),
    }
}

#[test]
fn github_factory_keeps_endpoint_override() {
    let r = GithubServiceFactory.create_service(
        Some(s("https://github.example.com/api/v3")),
        Some(s("acme")),
        Some(s("u")),
        Some(s("p")),
        true,
    );
    match r {
        CreateServiceResult::Ready(Backend::Github(svc)) => {
            assert_eq!(svc.endpoint, "https://github.example.com/api/v3");
            assert!(svc.name_check);
        }
        _ => panic!("expected a ready code-host backend"),
    }
}

#[test]
fn github_factory_zero_fields_is_not_configured() {
    let r = GithubServiceFactory.create_service(None, None, None, None, false);
    assert!(matches!(r, CreateServiceResult::NotConfigured));
}

#[test]
fn github_factory_names_exactly_the_missing_fields() {
    let r = GithubServiceFactory.create_service(None, Some(s("acme")), None, None, false);
    match r {
        CreateServiceResult::MissingRequiredFields(v) => {
            assert_eq!(v, vec![s("github-username"), s("github-password")]);
        }
        _ => panic!("expected missing required fields"),
    }
    // The endpoint alone configures nothing, so all three required
    // fields are reported absent.
    let r = GithubServiceFactory.create_service(Some(s("https://x")), None, None, None, false);
    match r {
        CreateServiceResult::MissingRequiredFields(v) => {
            assert_eq!(
                v,
                vec![s("github-org"), s("github-username"), s("github-password")]
            );
        }
        _ => panic!("expected missing required fields"),
    }
}

#[test]
fn slack_factory_ready_and_not_configured() {
    let r = SlackServiceFactory.create_service(Some(s("token123")));
    match r {
        CreateServiceResult::Ready(Backend::Slack(svc)) => {
            assert_eq!(svc.token, "token123");
        }
        _ => panic!("expected a ready chat-service backend"),
    }
    let r = SlackServiceFactory.create_service(None);
    assert!(matches!(r, CreateServiceResult::NotConfigured));
}

#[test]
fn construction_is_idempotent() {
    let build = || {
        GithubServiceFactory.create_service(None, Some(s("acme")), Some(s("u")), Some(s("p")), false)
    };
    let (r1, r2) = (build(), build());
    match (r1, r2) {
        (
            CreateServiceResult::Ready(Backend::Github(s1)),
            CreateServiceResult::Ready(Backend::Github(s2)),
        ) => {
            assert_eq!(s1.endpoint, s2.endpoint);
            assert_eq!(s1.org, s2.org);
            assert_eq!(s1.username, s2.username);
            assert_eq!(s1.password, s2.password);
            assert_eq!(s1.name_check, s2.name_check);
        }
        _ => panic!("expected two ready code-host backends"),
    }
    let t1 = SlackServiceFactory.create_service(Some(s("tok")));
    let t2 = SlackServiceFactory.create_service(Some(s("tok")));
    match (t1, t2) {
        (
            CreateServiceResult::Ready(Backend::Slack(s1)),
            CreateServiceResult::Ready(Backend::Slack(s2)),
        ) => assert_eq!(s1.token, s2.token),
        _ => panic!("expected two ready chat-service backends"),
    }
}

#[test]
fn factories_declare_their_options() {
    let mut opts: Vec<OptDef> = Vec::new();
    AWSServiceFactory.add_options(&mut opts);
    GithubServiceFactory.add_options(&mut opts);
    SlackServiceFactory.add_options(&mut opts);
    let names: Vec<String> = opts.iter().map(|o| o.name.clone()).collect();
    assert_eq!(
        names,
        vec![
            s("aws-access-key-id"),
            s("aws-secret-key"),
            s("github-endpoint"),
            s("github-org"),
            s("github-username"),
            s("github-password"),
            s("slack-token"),
        ]
    );
    assert_eq!(opts[0].desc, "AWS Access Key Id");
    assert_eq!(opts[0].hint, "access_key_id");
    assert_eq!(opts[2].desc, "Github API endpoint URL (default: https://api.github.com)");
    assert_eq!(opts[6].hint, "token");
}
