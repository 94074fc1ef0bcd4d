use jirasync::project::{get_project, select_target, Target};
use jirasync::report::title_of;

#[test]
fn get_project_knows_zephyr() {
    let project = get_project("zephyr").expect("a project");
    assert_eq!(project.host, "jira.zephyrproject.org");
    assert_eq!(
        project.query,
        "assignee = currentUser()\n                    ORDER BY priority DESC, updated DESC"
    );
    assert_eq!(project.name, "ZEP");
    assert_eq!(title_of(&project), "Issues at [https://jira.zephyrproject.org/projects/ZEP]");
}

#[test]
fn get_project_knows_mcuboot() {
    let project = get_project("mcuboot").expect("a project");
    assert_eq!(project.host, "runtimeco.atlassian.net");
    assert_eq!(
        project.query,
        "(fixVersion = 1.1 OR fixVersion = 1.2) AND\n                    assignee = currentUser()\n                    ORDER BY priority DESC, updated DESC"
    );
    assert_eq!(project.name, "MCUB");
}

#[test]
fn get_project_knows_no_other_name() {
    assert!(get_project("").is_none());
    assert!(get_project("Zephyr").is_none());
    assert!(get_project("mcuboot ").is_none());
    assert!(get_project("linux").is_none());
}

#[test]
fn select_target_sends_zephyr_to_the_github_tracker() {
    assert_eq!(select_target("zephyr"), Some(Target::Github));
}

#[test]
fn select_target_finds_the_projects_of_the_jira_tracker() {
    assert_eq!(select_target("mcuboot"), get_project("mcuboot").map(Target::Jira));
    assert!(matches!(select_target("mcuboot"), Some(Target::Jira(p)) if p.name == "MCUB"));
    assert_eq!(select_target("github"), None);
    assert_eq!(select_target(""), None);
}
