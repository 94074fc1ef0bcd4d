use jirasync::issue::{color_name, colorize, format_versions, Backend, NormalizedIssue};
use jirasync::key::MalformedKeyError;

fn issue_strings(list: &[&str]) -> Vec<String> {
    list.iter().map(|s| s.to_string()).collect()
}

#[test]
fn format_versions_joins_with_commas() {
    assert_eq!(format_versions(&issue_strings(&[])), " ");
    assert_eq!(format_versions(&issue_strings(&["1.0"])), "1.0");
    assert_eq!(format_versions(&issue_strings(&["1.0", "2.0"])), "1.0,2.0");
    assert_eq!(format_versions(&issue_strings(&["1.0", "2.0", "3.0-rc1"])), "1.0,2.0,3.0-rc1");
}

#[test]
fn format_versions_is_never_empty() {
    assert_eq!(format_versions(&issue_strings(&[""])), " ");
    assert_eq!(format_versions(&issue_strings(&["", ""])), ",");
}

#[test]
fn colorize_knows_the_states_of_the_jira_tracker() {
    assert_eq!(colorize(Backend::Jira, "Open"), "{color:red}Open{color}");
    assert_eq!(colorize(Backend::Jira, "Resolved"), "{color:green}Resolved{color}");
    assert_eq!(colorize(Backend::Jira, "Closed"), "{color:green}Closed{color}");
    assert_eq!(colorize(Backend::Jira, "In Progress"), "{color:blue}In Progress{color}");
}

#[test]
fn colorize_knows_the_states_of_the_github_tracker() {
    assert_eq!(colorize(Backend::Github, "OPEN"), "{color:red}OPEN{color}");
    assert_eq!(colorize(Backend::Github, "CLOSED"), "{color:green}CLOSED{color}");
    assert_eq!(colorize(Backend::Github, "MERGED"), "{color:blue}MERGED{color}");
}

#[test]
fn colorize_matches_letter_for_letter() {
    assert_eq!(color_name(Backend::Jira, "OPEN"), "blue");
    assert_eq!(color_name(Backend::Jira, "open"), "blue");
    assert_eq!(color_name(Backend::Jira, "CLOSED"), "blue");
    assert_eq!(color_name(Backend::Github, "Open"), "blue");
    assert_eq!(color_name(Backend::Github, "Closed"), "blue");
    assert_eq!(color_name(Backend::Github, "Resolved"), "blue");
    assert_eq!(color_name(Backend::Jira, ""), "blue");
}

#[test]
fn a_jira_issue_is_ranked_by_its_key() {
    let issue = NormalizedIssue::jira(
        "ZEP-42".to_string(),
        "https://tracker/rest/42".to_string(),
        "A title".to_string(),
        "Open".to_string(),
        issue_strings(&["1.0", "2.0"]),
    )
    .expect("an issue");
    assert_eq!(issue.key_or_number, "ZEP-42");
    assert_eq!(issue.url, "https://tracker/rest/42");
    assert_eq!(issue.title, "A title");
    assert_eq!(issue.status, "Open");
    assert_eq!(issue.fix_versions, issue_strings(&["1.0", "2.0"]));
    assert_eq!(issue.numeric_order, 42);
    assert_eq!(issue.nice_versions(), "1.0,2.0");
    assert_eq!(issue.decode_status(), "{color:red}Open{color}");
    assert_eq!(issue.duplicate(), issue);
}

#[test]
fn there_is_no_jira_issue_without_a_rank() {
    let made = NormalizedIssue::jira(
        "nodash".to_string(),
        String::new(),
        String::new(),
        String::new(),
        Vec::new(),
    );
    assert_eq!(made, Err(MalformedKeyError::NoSeparator));
    let made = NormalizedIssue::jira(
        "ZEP-one".to_string(),
        String::new(),
        String::new(),
        String::new(),
        Vec::new(),
    );
    assert_eq!(made, Err(MalformedKeyError::BadNumber));
}
