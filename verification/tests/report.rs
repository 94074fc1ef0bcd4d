use jirasync::issue::{Backend, NormalizedIssue};
use jirasync::order::sort_issues;
use jirasync::project::Project;
use jirasync::report::{jira_report, render, render_row};

fn report_issue(key: &str, title: &str, status: &str, versions: &[&str]) -> NormalizedIssue {
    NormalizedIssue::jira(
        key.to_string(),
        format!("https://tracker.example/rest/api/2/issue/{}", key),
        title.to_string(),
        status.to_string(),
        versions.iter().map(|s| s.to_string()).collect(),
    )
    .expect("an issue")
}

#[test]
fn render_row_of_the_jira_tracker_has_four_cells() {
    let issue = report_issue("ZEP-42", "Fix [the] thing_quickly", "Resolved", &["1.1", "1.2"]);
    assert_eq!(
        render_row(Backend::Jira, &issue),
        "|[ZEP-42|https://tracker.example/rest/api/2/issue/ZEP-42]|Fix \\[the\\] thing\\_quickly|1.1,1.2|{color:green}Resolved{color}|\n"
    );
}

#[test]
fn render_row_of_the_github_tracker_has_three_cells() {
    let issue = NormalizedIssue {
        key_or_number: "17".to_string(),
        title: "a-b".to_string(),
        url: "https://github.com/o/r/issues/17".to_string(),
        status: "OPEN".to_string(),
        fix_versions: Vec::new(),
        numeric_order: 17,
    };
    assert_eq!(
        render_row(Backend::Github, &issue),
        "|[17|https://github.com/o/r/issues/17]|a\\-b|{color:red}OPEN{color}|\n"
    );
}

#[test]
fn render_of_no_issues_is_title_head_and_note() {
    assert_eq!(
        render("Title", Backend::Jira, &Vec::new(), "a = b"),
        "Title\n\n||Issue||Description||Vers||Status||\n\nQuery: {panel}a = b{panel}\n"
    );
    assert_eq!(
        render("Title", Backend::Github, &Vec::new(), ""),
        "Title\n\n||Issue||Description||Status||\n\nQuery: {panel}{panel}\n"
    );
}

#[test]
fn render_keeps_the_order_given() {
    let issues = vec![
        report_issue("A-2", "second", "Open", &[]),
        report_issue("A-1", "first", "Closed", &[]),
    ];
    let text = render("T", Backend::Jira, &issues, "q");
    assert_eq!(
        text,
        "T\n\n||Issue||Description||Vers||Status||\n\
         |[A-2|https://tracker.example/rest/api/2/issue/A-2]|second| |{color:red}Open{color}|\n\
         |[A-1|https://tracker.example/rest/api/2/issue/A-1]|first| |{color:green}Closed{color}|\n\
         \nQuery: {panel}q{panel}\n"
    );
    assert_eq!(issues[0].key_or_number, "A-2");
}

#[test]
fn sorted_and_rendered_issues_come_in_the_order_of_their_numbers() {
    let issues = vec![
        report_issue("A-2", "two", "Open", &[]),
        report_issue("A-1", "one", "Closed", &[]),
    ];
    let sorted = sort_issues(&issues);
    let text = render("Issues at [https://h/projects/A]", Backend::Jira, &sorted, "q");
    let first = text.find("[A-1|").expect("A-1 is listed");
    let second = text.find("[A-2|").expect("A-2 is listed");
    assert!(first < second);
    assert!(text.contains("|one| |{color:green}Closed{color}|\n"));
    assert!(text.contains("|two| |{color:red}Open{color}|\n"));
}

#[test]
fn jira_report_sorts_and_renders() {
    let project = Project {
        host: "tracker.example".to_string(),
        query: "assignee = currentUser()".to_string(),
        name: "A".to_string(),
    };
    let issues = vec![
        report_issue("A-3", "three", "Open", &["2.0"]),
        report_issue("A-2", "two", "In Progress", &["1.0"]),
        report_issue("A-1", "one", "Closed", &["2.0"]),
    ];
    assert_eq!(
        jira_report(&project, &issues),
        "Issues at [https://tracker.example/projects/A]\n\n\
         ||Issue||Description||Vers||Status||\n\
         |[A-2|https://tracker.example/rest/api/2/issue/A-2]|two|1.0|{color:blue}In Progress{color}|\n\
         |[A-1|https://tracker.example/rest/api/2/issue/A-1]|one|2.0|{color:green}Closed{color}|\n\
         |[A-3|https://tracker.example/rest/api/2/issue/A-3]|three|2.0|{color:red}Open{color}|\n\
         \nQuery: {panel}assignee = currentUser(){panel}\n"
    );
}
