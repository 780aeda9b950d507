use jenkins_hooks::config::{distinct_names, BranchJobs, Config, ConfigError, Folder, Jenkins, JenkinsError, Project};

fn s(x: &str) -> String {
    x.to_string()
}

fn jenkins() -> Jenkins {
    Jenkins::new(s("https://ci.example"), 8443, s("tok123"), s("bot"))
}

fn branch(name: &str, jobs: &[&str]) -> BranchJobs {
    BranchJobs { branch: s(name), jobs: jobs.iter().map(|j| s(j)).collect() }
}

fn sample() -> Config {
    Config {
        jenkins: jenkins(),
        folder: vec![
            Folder {
                name: s("team-a"),
                projects: vec![Project {
                    name: s("service"),
                    branches: vec![branch("main", &["build", "deploy"]), branch("dev", &["build-dev"])],
                }],
            },
            Folder {
                name: s("team-b"),
                projects: vec![
                    Project { name: s("web"), branches: vec![branch("main", &["web-build"])] },
                    Project { name: s("api"), branches: vec![branch("release", &["api-release"])] },
                ],
            },
        ],
    }
}

#[test]
fn valid_config_passes_validation() {
    assert!(sample().validate().is_ok());
}

#[test]
fn blank_url_is_rejected() {
    let mut c = sample();
    c.jenkins.url = s("  \t ");
    assert!(matches!(c.validate(), Err(ConfigError::Jenkins(JenkinsError::EmptyUrl))));
}

#[test]
fn jenkins_fields_checked_in_order() {
    let j = Jenkins::new(s("u"), 1, s(" "), s(""));
    assert_eq!(j.validate(), Err(JenkinsError::EmptyApi));
    let j = Jenkins::new(s("u"), 1, s("a"), s("\n"));
    assert_eq!(j.validate(), Err(JenkinsError::EmptyUsername));
    let j = Jenkins::new(s(""), 1, s(""), s(""));
    assert_eq!(j.validate(), Err(JenkinsError::EmptyUrl));
    assert_eq!(jenkins().validate(), Ok(()));
}

#[test]
fn no_folders_is_rejected() {
    let c = Config { jenkins: jenkins(), folder: vec![] };
    assert!(matches!(c.validate(), Err(ConfigError::NoFolders)));
}

#[test]
fn empty_project_list_is_rejected() {
    let mut c = sample();
    c.folder[1].projects.clear();
    match c.validate() {
        Err(ConfigError::NoProjects { folder }) => assert_eq!(folder, "team-b"),
        other => panic!("unexpected {:?}", other),
    }
}

#[test]
fn empty_branch_table_is_rejected() {
    let mut c = sample();
    c.folder[1].projects[1].branches.clear();
    match c.validate() {
        Err(ConfigError::NoBranches { folder, project }) => {
            assert_eq!(folder, "team-b");
            assert_eq!(project, "api");
        }
        other => panic!("unexpected {:?}", other),
    }
}

#[test]
fn empty_job_list_is_rejected() {
    let mut c = sample();
    c.folder[0].projects[0].branches[1].jobs.clear();
    match c.validate() {
        Err(ConfigError::NoJobs { folder, project, branch }) => {
            assert_eq!(folder, "team-a");
            assert_eq!(project, "service");
            assert_eq!(branch, "dev");
        }
        other => panic!("unexpected {:?}", other),
    }
}

#[test]
fn first_fault_in_order_is_reported() {
    let mut c = sample();
    c.folder[0].projects[0].branches[1].jobs.clear();
    c.folder[1].projects.clear();
    assert!(matches!(c.validate(), Err(ConfigError::NoJobs { .. })));
}

#[test]
fn find_jobs_walks_all_three_levels() {
    let c = sample();
    assert_eq!(c.find_jobs("team-a", "service", "main"), Some(&vec![s("build"), s("deploy")]));
    assert_eq!(c.find_jobs("team-b", "api", "release"), Some(&vec![s("api-release")]));
    assert_eq!(c.find_jobs("team-c", "service", "main"), None);
    assert_eq!(c.find_jobs("team-a", "web", "main"), None);
    assert_eq!(c.find_jobs("team-a", "service", "feature"), None);
}

#[test]
fn folders_and_projects_are_listed() {
    let c = sample();
    assert_eq!(c.get_folders(), vec!["team-a", "team-b"]);
    assert_eq!(c.get_projects("team-b"), Some(vec!["web", "api"]));
    assert_eq!(c.get_projects("team-a"), Some(vec!["service"]));
    assert_eq!(c.get_projects("nope"), None);
}

#[test]
fn job_root_joins_url_and_port() {
    assert_eq!(jenkins().get_url(), "https://ci.example:8443/job");
    let j = Jenkins::new(s("http://h"), 0, s("a"), s("b"));
    assert_eq!(j.get_url(), "http://h:0/job");
    let j = Jenkins::new(s("http://h"), u32::MAX, s("a"), s("b"));
    assert_eq!(j.get_url(), "http://h:4294967295/job");
}

#[test]
fn unique_keys_are_accepted() {
    assert!(sample().has_unique_keys());
}

#[test]
fn duplicate_folder_is_found() {
    let mut c = sample();
    c.folder[1].name = s("team-a");
    assert!(!c.has_unique_keys());
}

#[test]
fn duplicate_project_is_found() {
    let mut c = sample();
    c.folder[1].projects[1].name = s("web");
    assert!(!c.has_unique_keys());
}

#[test]
fn duplicate_branch_is_found() {
    let mut c = sample();
    c.folder[0].projects[0].branches[1].branch = s("main");
    assert!(!c.has_unique_keys());
}

#[test]
fn same_repository_in_two_folders_is_allowed() {
    let mut c = sample();
    c.folder[1].projects[0].name = s("service");
    assert!(c.has_unique_keys());
}

#[test]
fn distinct_name_lists() {
    assert!(distinct_names(&vec![]));
    assert!(distinct_names(&vec!["a", "b", "c"]));
    assert!(!distinct_names(&vec!["a", "b", "a"]));
}
