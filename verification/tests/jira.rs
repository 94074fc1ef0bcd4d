use jirasync::error::{ReportError, SchemaError};
use jirasync::jira::{
    decode_issue, decode_page, decode_versions, search_fields, text_member, Page, Pager, Reply,
    Step,
};
use jirasync::json::Json;
use jirasync::key::MalformedKeyError;

fn issue_json(number: u64) -> String {
    format!(
        "{{\"key\": \"ZEP-{n}\", \"self\": \"https://tracker/rest/api/2/issue/{n}\", \"id\": \"{n}\", \
         \"fields\": {{\"summary\": \"Issue {n}\", \"assignee\": null, \
         \"status\": {{\"name\": \"Open\", \"id\": \"1\"}}, \
         \"fixVersions\": [{{\"name\": \"1.{n}\"}}, {{\"name\": \"2.0\", \"released\": false}}]}}}}",
        n = number
    )
}

fn page_json(total: u64, from: u64, count: u64) -> Vec<u8> {
    let issues: Vec<String> = (from..from + count).map(issue_json).collect();
    format!(
        "{{\"startAt\": {}, \"maxResults\": 100, \"total\": {}, \"issues\": [{}]}}",
        from,
        total,
        issues.join(",")
    )
    .into_bytes()
}

fn after_one_page() -> Pager {
    match Pager::new().advance(Reply::Body(page_json(150, 0, 100))) {
        Step::Fetch(pager) => pager,
        other => panic!("not going on: {:?}", other),
    }
}

fn parsed(text: &str) -> Json {
    Json::parse(text.as_bytes()).expect("a document")
}

#[test]
fn a_search_of_150_issues_takes_two_requests() {
    let mut offsets: Vec<u64> = Vec::new();
    let mut pager = Pager::new();
    let issues = loop {
        let start = pager.start_at();
        offsets.push(start);
        let count = (150 - start).min(100);
        match pager.advance(Reply::Body(page_json(150, start, count))) {
            Step::Fetch(next) => pager = next,
            Step::Done(issues) => break issues,
            Step::Failed { start_at, error } => panic!("failed at {}: {:?}", start_at, error),
        }
    };
    assert_eq!(offsets, vec![0, 100]);
    assert_eq!(issues.len(), 150);
    for (i, issue) in issues.iter().enumerate() {
        assert_eq!(issue.key_or_number, format!("ZEP-{}", i));
        assert_eq!(issue.numeric_order, i as u64);
    }
}

#[test]
fn a_search_is_done_with_the_page_that_reaches_the_total() {
    let step = Pager::new().advance(Reply::Body(page_json(3, 0, 3)));
    match step {
        Step::Done(issues) => assert_eq!(issues.len(), 3),
        other => panic!("not done: {:?}", other),
    }
    let step = Pager::new().advance(Reply::Body(page_json(0, 0, 0)));
    assert_eq!(step, Step::Done(Vec::new()));
    let step = Pager::new().advance(Reply::Body(page_json(2, 0, 3)));
    match step {
        Step::Done(issues) => assert_eq!(issues.len(), 3),
        other => panic!("not done: {:?}", other),
    }
}

#[test]
fn a_search_goes_on_until_the_total_is_reached() {
    let first = Pager::new().accept(Page { total: 5, issues: Vec::new() });
    let pager = match first {
        Step::Fetch(pager) => pager,
        other => panic!("not going on: {:?}", other),
    };
    assert_eq!(pager.start_at(), 0);
    let page = decode_page(&Json::parse(&page_json(5, 0, 2)).expect("a document")).expect("a page");
    let pager = match pager.accept(page) {
        Step::Fetch(pager) => pager,
        other => panic!("not going on: {:?}", other),
    };
    assert_eq!(pager.start_at(), 2);
}

#[test]
fn a_failed_request_fails_the_search() {
    assert_eq!(
        after_one_page().advance(Reply::Failed),
        Step::Failed { start_at: 100, error: ReportError::Transport }
    );
}

#[test]
fn a_page_of_another_shape_fails_the_search() {
    assert_eq!(
        after_one_page().advance(Reply::Body(b"not json".to_vec())),
        Step::Failed { start_at: 100, error: ReportError::Schema(SchemaError::NotJson) }
    );
    assert_eq!(
        after_one_page().advance(Reply::Body(b"{\"issues\": []}".to_vec())),
        Step::Failed { start_at: 100, error: ReportError::Schema(SchemaError::Envelope) }
    );
    assert_eq!(
        after_one_page()
            .accept_document(&parsed("{\"total\": 150, \"issues\": [{\"key\": \"ZEP-1\"}]}")),
        Step::Failed { start_at: 100, error: ReportError::Schema(SchemaError::Record(0)) }
    );
}

#[test]
fn decode_page_reads_total_and_issues() {
    let page = decode_page(&Json::parse(&page_json(7, 4, 2)).expect("a document")).expect("a page");
    assert_eq!(page.total, 7);
    assert_eq!(page.issues.len(), 2);
    let issue = &page.issues[1];
    assert_eq!(issue.key_or_number, "ZEP-5");
    assert_eq!(issue.url, "https://tracker/rest/api/2/issue/5");
    assert_eq!(issue.title, "Issue 5");
    assert_eq!(issue.status, "Open");
    assert_eq!(issue.fix_versions, vec!["1.5".to_string(), "2.0".to_string()]);
    assert_eq!(issue.numeric_order, 5);
}

#[test]
fn decode_page_wants_total_and_issues() {
    for text in [
        "[]",
        "{}",
        "{\"total\": 1}",
        "{\"issues\": []}",
        "{\"total\": \"1\", \"issues\": []}",
        "{\"total\": -1, \"issues\": []}",
        "{\"total\": 1, \"issues\": {}}",
    ] {
        assert_eq!(decode_page(&parsed(text)), Err(ReportError::Schema(SchemaError::Envelope)));
    }
}

#[test]
fn decode_page_reports_the_first_entry_that_is_no_issue() {
    let text = format!(
        "{{\"total\": 3, \"issues\": [{}, {{\"key\": \"ZEP-2\"}}, {{\"key\": \"nodash\"}}]}}",
        issue_json(1)
    );
    assert_eq!(decode_page(&parsed(&text)), Err(ReportError::Schema(SchemaError::Record(1))));
}

#[test]
fn decode_page_reports_a_key_without_rank() {
    let bad = issue_json(2).replace("ZEP-2", "ZEP2");
    let text = format!("{{\"total\": 3, \"issues\": [{}, {}]}}", issue_json(1), bad);
    assert_eq!(
        decode_page(&parsed(&text)),
        Err(ReportError::MalformedKey(MalformedKeyError::NoSeparator))
    );
    let bad = issue_json(2).replace("ZEP-2", "ZEP-two");
    let text = format!("{{\"total\": 3, \"issues\": [{}]}}", bad);
    assert_eq!(
        decode_page(&parsed(&text)),
        Err(ReportError::MalformedKey(MalformedKeyError::BadNumber))
    );
}

#[test]
fn decode_issue_takes_the_link_under_either_name() {
    let fields = "\"fields\": {\"summary\": \"s\", \"status\": {\"name\": \"Open\"}, \"fixVersions\": []}";
    let issue = decode_issue(&parsed(&format!("{{\"key\": \"A-1\", \"self_link\": \"x\", {}}}", fields)))
        .expect("an entry")
        .expect("an issue");
    assert_eq!(issue.url, "x");
    assert!(issue.fix_versions.is_empty());
    let issue = decode_issue(&parsed(&format!(
        "{{\"key\": \"A-1\", \"self\": \"y\", \"self_link\": \"x\", {}}}",
        fields
    )))
    .expect("an entry")
    .expect("an issue");
    assert_eq!(issue.url, "x");
    let issue = decode_issue(&parsed(&format!("{{\"key\": \"A-1\", \"self\": \"y\", {}}}", fields)))
        .expect("an entry")
        .expect("an issue");
    assert_eq!(issue.url, "y");
    assert_eq!(decode_issue(&parsed(&format!("{{\"key\": \"A-1\", {}}}", fields))), None);
    assert_eq!(
        decode_issue(&parsed(&format!("{{\"key\": \"A-1\", \"self_link\": 1, \"self\": \"y\", {}}}", fields))),
        None
    );
}

#[test]
fn decode_issue_wants_every_field() {
    let whole = issue_json(1);
    assert!(matches!(decode_issue(&parsed(&whole)), Some(Ok(_))));
    for (from, to) in [
        ("\"key\"", "\"Key\""),
        ("\"fields\"", "\"Fields\""),
        ("\"summary\"", "\"title\""),
        ("\"status\"", "\"state\""),
        ("\"name\": \"Open\"", "\"name\": 1"),
        ("\"fixVersions\"", "\"versions\""),
        ("\"name\": \"2.0\"", "\"label\": \"2.0\""),
        ("\"Issue 1\"", "null"),
    ] {
        assert!(whole.contains(from));
        assert_eq!(decode_issue(&parsed(&whole.replace(from, to))), None, "{} -> {}", from, to);
    }
    assert_eq!(
        decode_issue(&parsed(&whole.replace("ZEP-1", "ZEP"))),
        Some(Err(MalformedKeyError::NoSeparator))
    );
}

#[test]
fn decode_versions_reads_the_names() {
    let fields = parsed("{\"fixVersions\": [{\"name\": \"a\"}, {\"name\": \"b\", \"id\": 1}]}");
    assert_eq!(decode_versions(&fields), Some(vec!["a".to_string(), "b".to_string()]));
    assert_eq!(decode_versions(&parsed("{\"fixVersions\": []}")), Some(Vec::new()));
    assert_eq!(decode_versions(&parsed("{\"fixVersions\": [{\"name\": \"a\"}, {}]}")), None);
    assert_eq!(decode_versions(&parsed("{\"fixVersions\": null}")), None);
    assert_eq!(decode_versions(&parsed("{}")), None);
    assert_eq!(text_member(&parsed("{\"a\": \"x\"}"), "a"), Some("x".to_string()));
    assert_eq!(text_member(&parsed("{\"a\": 1}"), "a"), None);
}

#[test]
fn search_fields_are_the_four_that_the_report_needs() {
    assert_eq!(search_fields(), vec!["summary", "assignee", "status", "fixVersions"]);
}
