use jenkins_hooks::config::{BranchJobs, Config, Folder, Jenkins, Project};
use jenkins_hooks::dispatch::{handle_hook, trigger_url_of, Dispatch, HookPlan};
use jenkins_hooks::resolve::Resolution;
use jenkins_hooks::webhook::{decode, HookPayload, PushEvent, Rejected};

fn s(x: &str) -> String {
    x.to_string()
}

fn config() -> Config {
    Config {
        jenkins: Jenkins::new(s("https://ci.local"), 8080, s("tok"), s("bot")),
        folder: vec![
            Folder {
                name: s("team-a"),
                projects: vec![Project {
                    name: s("service"),
                    branches: vec![BranchJobs { branch: s("main"), jobs: vec![s("build"), s("deploy")] }],
                }],
            },
            Folder {
                name: s("team-b"),
                projects: vec![Project {
                    name: s("service"),
                    branches: vec![BranchJobs { branch: s("main"), jobs: vec![s("other")] }],
                }],
            },
        ],
    }
}

fn payload(r: &str, repo: &str) -> Option<HookPayload> {
    Some(HookPayload { ref_field: s(r), repository_name: s(repo) })
}

#[test]
fn missing_event_header_is_rejected() {
    assert!(matches!(decode(None, payload("refs/heads/main", "service")), Err(Rejected::MissingEventHeader)));
}

#[test]
fn non_push_event_is_rejected_without_calls() {
    let plan = handle_hook(&config(), Some("pull_request"), payload("refs/heads/main", "service"));
    assert!(matches!(plan, HookPlan::Rejected(Rejected::NotPush)));
    let plan = handle_hook(&config(), Some("Push"), payload("refs/heads/main", "service"));
    assert!(matches!(plan, HookPlan::Rejected(Rejected::NotPush)));
    let plan = handle_hook(&config(), None, payload("refs/heads/main", "service"));
    assert!(matches!(plan, HookPlan::Rejected(Rejected::MissingEventHeader)));
}

#[test]
fn malformed_body_is_rejected() {
    let plan = handle_hook(&config(), Some("push"), None);
    assert!(matches!(plan, HookPlan::Rejected(Rejected::MalformedBody)));
}

#[test]
fn push_is_decoded() {
    match decode(Some("push"), payload("refs/heads/feature/x", "service")) {
        Ok(ev) => {
            assert_eq!(ev.repository, "service");
            assert_eq!(ev.branch, "feature/x");
        }
        Err(e) => panic!("unexpected {:?}", e),
    }
}

#[test]
fn only_one_heads_prefix_is_stripped_from_a_push() {
    match decode(Some("push"), payload("refs/heads/refs/heads/x", "service")) {
        Ok(ev) => assert_eq!(ev.branch, "refs/heads/x"),
        Err(e) => panic!("unexpected {:?}", e),
    }
}

#[test]
fn unknown_repository_resolves_to_no_project() {
    let ev = PushEvent { repository: s("unknown"), branch: s("main") };
    assert!(matches!(config().resolve(&ev), Resolution::NoProject));
    match handle_hook(&config(), Some("push"), payload("refs/heads/main", "unknown")) {
        HookPlan::NoProject { repository } => assert_eq!(repository, "unknown"),
        _ => panic!("expected no project"),
    }
}

#[test]
fn first_folder_with_the_repository_wins() {
    let ev = PushEvent { repository: s("service"), branch: s("main") };
    match config().resolve(&ev) {
        Resolution::Jobs { folder, jobs } => {
            assert_eq!(folder, "team-a");
            assert_eq!(jobs, vec![s("build"), s("deploy")]);
        }
        _ => panic!("expected jobs"),
    }
}

#[test]
fn push_to_mapped_branch_triggers_each_job_in_order() {
    match handle_hook(&config(), Some("push"), payload("refs/heads/main", "service")) {
        HookPlan::Trigger { folder, branch, requests } => {
            assert_eq!(folder, "team-a");
            assert_eq!(branch, "main");
            assert_eq!(requests.len(), 2);
            assert_eq!(requests[0].job, "build");
            assert_eq!(requests[0].url, "https://ci.local:8080/job/team-a/build/buildWithParameters");
            assert_eq!(requests[1].job, "deploy");
            assert_eq!(requests[1].url, "https://ci.local:8080/job/team-a/deploy/buildWithParameters");
            for r in &requests {
                assert_eq!(r.username, "bot");
                assert_eq!(r.token, "tok");
            }
        }
        _ => panic!("expected a trigger plan"),
    }
}

#[test]
fn push_to_unmapped_branch_triggers_nothing() {
    let ev = PushEvent { repository: s("service"), branch: s("dev") };
    assert!(matches!(config().resolve(&ev), Resolution::NoBranch { .. }));
    match handle_hook(&config(), Some("push"), payload("refs/heads/dev", "service")) {
        HookPlan::NoBranch { folder, project, branch } => {
            assert_eq!(folder, "team-a");
            assert_eq!(project, "service");
            assert_eq!(branch, "dev");
        }
        _ => panic!("expected no branch"),
    }
}

#[test]
fn failed_dispatch_does_not_stop_the_next() {
    let requests = match handle_hook(&config(), Some("push"), payload("refs/heads/main", "service")) {
        HookPlan::Trigger { requests, .. } => requests,
        _ => panic!("expected a trigger plan"),
    };
    let mut d = Dispatch::new(requests);
    assert_eq!(d.next_request().map(|r| r.job.clone()), Some(s("build")));
    let first = d.record(Err(s("connection refused")));
    assert_eq!(first.job, "build");
    assert!(!first.success);
    assert_eq!(first.error, Some(s("connection refused")));
    assert_eq!(d.next_request().map(|r| r.job.clone()), Some(s("deploy")));
    let second = d.record(Ok(()));
    assert_eq!(second.job, "deploy");
    assert!(second.success);
    assert_eq!(second.error, None);
    assert!(d.next_request().is_none());
}

#[test]
fn trigger_url_pattern() {
    let j = Jenkins::new(s("http://jenkins"), 80, s("t"), s("u"));
    assert_eq!(trigger_url_of(&j, "f", "j"), "http://jenkins:80/job/f/j/buildWithParameters");
}
