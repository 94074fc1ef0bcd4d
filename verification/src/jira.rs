//! The JIRA-style tracker: a search that is answered page by page.

use crate::error::{ReportError, SchemaError};
use crate::issue::{issue_views, texts, IssueView, NormalizedIssue};
use crate::json::{first_missing, json_document, lemma_first_missing, Json};
use crate::key::{lemma_last_dash, numeric_order, MalformedKeyError};
use vstd::prelude::*;

verus! {

/// One answer of the tracker: some of the issues, and how many there are in all.
#[derive(Debug, PartialEq, Eq)]
pub struct Page {
    /// The number of issues that the search matches.
    pub total: u64,
    /// The issues of this page, in the tracker's order.
    pub issues: Vec<NormalizedIssue>,
}

/// The text of the member `name` of `entry`.
pub open spec fn text_field(entry: Json, name: Seq<char>) -> Option<Seq<char>> {
    match entry.field(name) {
        Some(value) => value.text(),
        None => None,
    }
}

/// The name of each version in `entries`.
pub open spec fn version_names(entries: Seq<Json>) -> Seq<Option<Seq<char>>> {
    Seq::new(entries.len(), |i: int| text_field(entries[i], "name"@))
}

/// The link of an issue: the text of its member `self_link` or, where it has
/// none of that name, of its member `self`.
pub open spec fn link_of(entry: Json) -> Option<Seq<char>> {
    match entry.field("self_link"@) {
        Some(value) => value.text(),
        None => text_field(entry, "self"@),
    }
}

/// The versions of an issue: the names of the entries of the list `fixVersions`.
pub open spec fn versions_of(fields: Json) -> Option<Seq<Seq<char>>> {
    match fields.field("fixVersions"@) {
        Some(Json::List(entries)) => if first_missing(version_names(entries@)) < entries@.len() {
            None
        } else {
            Some(Seq::new(entries@.len(), |i: int| text_field(entries@[i], "name"@)->Some_0))
        },
        _ => None,
    }
}

/// The status of an issue: the name of the member `status`.
pub open spec fn status_of(fields: Json) -> Option<Seq<char>> {
    match fields.field("status"@) {
        Some(status) => text_field(status, "name"@),
        None => None,
    }
}

/// The issue in an entry of a page. The entry is an object with the texts `key`
/// and `self_link` and the object `fields`, which holds the text `summary`, the
/// object `status` with the text `name`, and the list `fixVersions` of objects
/// with the text `name`. `None` where the entry does not have this shape;
/// otherwise the issue, or the reason for which its key gives no rank.
pub open spec fn jira_issue(entry: Json) -> Option<Result<IssueView, MalformedKeyError>> {
    match (text_field(entry, "key"@), link_of(entry), entry.field("fields"@)) {
        (Some(key), Some(link), Some(fields)) => match (
            text_field(fields, "summary"@),
            status_of(fields),
            versions_of(fields),
        ) {
            (Some(summary), Some(status), Some(versions)) => match numeric_order(key) {
                Ok(n) => Some(
                    Ok(
                        IssueView {
                            key_or_number: key,
                            title: summary,
                            url: link,
                            status,
                            fix_versions: versions,
                            numeric_order: n,
                        },
                    ),
                ),
                Err(e) => Some(Err(e)),
            },
            _ => None,
        },
        _ => None,
    }
}

/// An issue that is read from an entry has a key, and is ranked by it.
pub proof fn lemma_jira_issue_wf(entry: Json)
    ensures
        jira_issue(entry) matches Some(Ok(issue)) ==> issue.wf(),
{
    match jira_issue(entry) {
        Some(Ok(issue)) => {
            lemma_last_dash(issue.key_or_number);
        },
        _ => {},
    }
}

/// The issue in an entry, where there is one.
pub open spec fn ranked_issue(entry: Json) -> Option<IssueView> {
    match jira_issue(entry) {
        Some(Ok(issue)) => Some(issue),
        _ => None,
    }
}

/// The issue in each entry of `entries`.
pub open spec fn ranked_issues(entries: Seq<Json>) -> Seq<Option<IssueView>> {
    Seq::new(entries.len(), |i: int| ranked_issue(entries[i]))
}

/// Why the entry `entry`, at the position `at`, gives no issue.
pub open spec fn entry_error(entry: Json, at: int) -> ReportError {
    match jira_issue(entry) {
        Some(Err(e)) => ReportError::MalformedKey(e),
        _ => ReportError::Schema(SchemaError::Record(at as usize)),
    }
}

/// What a document holds as a page: the total and the issues in their order. The
/// document is an object with the number `total` and the list `issues`; the first
/// entry of the list that gives no issue makes the whole page an error.
pub open spec fn page_result(doc: Json) -> Result<(u64, Seq<IssueView>), ReportError> {
    match (doc.field("total"@), doc.field("issues"@)) {
        (Some(Json::Number(Some(total))), Some(Json::List(entries))) => {
            let bad = first_missing(ranked_issues(entries@));
            if bad < entries@.len() {
                Err(entry_error(entries@[bad], bad))
            } else {
                Ok((total, Seq::new(entries@.len(), |i: int| ranked_issue(entries@[i])->Some_0)))
            }
        },
        _ => Err(ReportError::Schema(SchemaError::Envelope)),
    }
}

/// The text of the member `name` of `entry`.
pub fn text_member(entry: &Json, name: &str) -> (r: Option<String>)
    ensures
        match r {
            Some(s) => text_field(*entry, name@) == Some(s@),
            None => text_field(*entry, name@) is None,
        },
{
    match entry.member(name) {
        Some(Json::Text(s)) => Some(s.clone()),
        _ => None,
    }
}

/// The versions of an issue, read from its fields.
pub fn decode_versions(fields: &Json) -> (r: Option<Vec<String>>)
    ensures
        match r {
            Some(versions) => versions_of(*fields) == Some(texts(versions@)),
            None => versions_of(*fields) is None,
        },
{
    let entries = match fields.member("fixVersions") {
        Some(Json::List(entries)) => entries,
        _ => { return None; },
    };
    let mut versions: Vec<String> = Vec::new();
    let mut i: usize = 0;
    while i < entries.len()
        invariant
            i <= entries@.len(),
            fields.field("fixVersions"@) == Some(Json::List(*entries)),
            versions@.len() == i,
            forall|j: int|
                0 <= j < i ==> text_field(entries@[j], "name"@) == Some((#[trigger] versions@[j])@),
        decreases entries@.len() - i,
    {
        match text_member(&entries[i], "name") {
            Some(name) => {
                versions.push(name);
            },
            None => {
                proof {
                    assert forall|j: int| 0 <= j < i implies version_names(
                        entries@,
                    )[j] is Some by {
                        assert(text_field(entries@[j], "name"@) == Some(versions@[j]@));
                    }
                    lemma_first_missing(version_names(entries@), i as int);
                }
                return None;
            },
        }
        i += 1;
    }
    proof {
        assert forall|j: int| 0 <= j < i implies version_names(entries@)[j] is Some by {
            assert(text_field(entries@[j], "name"@) == Some(versions@[j]@));
        }
        lemma_first_missing(version_names(entries@), i as int);
        assert(texts(versions@) =~= Seq::new(
            entries@.len(),
            |i: int| text_field(entries@[i], "name"@)->Some_0,
        ));
    }
    Some(versions)
}

/// The issue in one entry of a page.
pub fn decode_issue(entry: &Json) -> (r: Option<Result<NormalizedIssue, MalformedKeyError>>)
    ensures
        match jira_issue(*entry) {
            Some(Ok(issue)) => r is Some && r->Some_0 is Ok && r->Some_0->Ok_0@ == issue,
            Some(Err(e)) => r == Some(Err::<NormalizedIssue, MalformedKeyError>(e)),
            None => r is None,
        },
{
    let key = match text_member(entry, "key") {
        Some(key) => key,
        None => { return None; },
    };
    let link = match entry.member("self_link") {
        Some(Json::Text(s)) => s.clone(),
        Some(_) => { return None; },
        None => match text_member(entry, "self") {
            Some(link) => link,
            None => { return None; },
        },
    };
    let fields = match entry.member("fields") {
        Some(fields) => fields,
        None => { return None; },
    };
    let summary = match text_member(fields, "summary") {
        Some(summary) => summary,
        None => { return None; },
    };
    let status = match fields.member("status") {
        Some(status) => match text_member(status, "name") {
            Some(name) => name,
            None => { return None; },
        },
        None => { return None; },
    };
    let versions = match decode_versions(fields) {
        Some(versions) => versions,
        None => { return None; },
    };
    Some(NormalizedIssue::jira(key, link, summary, status, versions))
}

/// Reads a page out of a document.
pub fn decode_page(doc: &Json) -> (r: Result<Page, ReportError>)
    ensures
        match page_result(*doc) {
            Ok((total, issues)) => r is Ok && r->Ok_0.total == total && issue_views(
                r->Ok_0.issues@,
            ) == issues,
            Err(e) => r == Err::<Page, ReportError>(e),
        },
{
    let total = match doc.member("total") {
        Some(Json::Number(Some(total))) => *total,
        _ => { return Err(ReportError::Schema(SchemaError::Envelope)); },
    };
    let entries = match doc.member("issues") {
        Some(Json::List(entries)) => entries,
        _ => { return Err(ReportError::Schema(SchemaError::Envelope)); },
    };
    let mut issues: Vec<NormalizedIssue> = Vec::new();
    let mut i: usize = 0;
    while i < entries.len()
        invariant
            i <= entries@.len(),
            doc.field("total"@) == Some(Json::Number(Some(total))),
            doc.field("issues"@) == Some(Json::List(*entries)),
            issues@.len() == i,
            forall|j: int|
                0 <= j < i ==> ranked_issue(entries@[j]) == Some((#[trigger] issues@[j])@),
        decreases entries@.len() - i,
    {
        proof {
            assert forall|j: int| 0 <= j < i implies ranked_issues(entries@)[j] is Some by {
                assert(ranked_issue(entries@[j]) == Some(issues@[j]@));
            }
        }
        match decode_issue(&entries[i]) {
            Some(Ok(issue)) => {
                issues.push(issue);
            },
            Some(Err(e)) => {
                proof {
                    lemma_first_missing(ranked_issues(entries@), i as int);
                }
                return Err(ReportError::MalformedKey(e));
            },
            None => {
                proof {
                    lemma_first_missing(ranked_issues(entries@), i as int);
                }
                return Err(ReportError::Schema(SchemaError::Record(i)));
            },
        }
        i += 1;
    }
    proof {
        assert forall|j: int| 0 <= j < i implies ranked_issues(entries@)[j] is Some by {
            assert(ranked_issue(entries@[j]) == Some(issues@[j]@));
        }
        lemma_first_missing(ranked_issues(entries@), i as int);
        assert(issue_views(issues@) =~= Seq::new(
            entries@.len(),
            |i: int| ranked_issue(entries@[i])->Some_0,
        ));
    }
    Ok(Page { total, issues })
}

/// The fields that are asked of each issue.
pub fn search_fields() -> (r: Vec<&'static str>)
    ensures
        r@.len() == 4,
        r@[0]@ == "summary"@,
        r@[1]@ == "assignee"@,
        r@[2]@ == "status"@,
        r@[3]@ == "fixVersions"@,
{
    let mut r: Vec<&'static str> = Vec::new();
    r.push("summary");
    r.push("assignee");
    r.push("status");
    r.push("fixVersions");
    r
}

/// A search in progress: the issues of the pages received so far.
#[derive(Debug, PartialEq, Eq)]
pub struct Pager {
    gathered: Vec<NormalizedIssue>,
}

/// What came back for a request.
#[derive(Debug, PartialEq, Eq)]
pub enum Reply {
    /// The body of the answer.
    Body(Vec<u8>),
    /// No answer: the request failed on the way.
    Failed,
}

/// What is to be done next.
#[derive(Debug, PartialEq, Eq)]
pub enum Step {
    /// Ask for the page that starts at `start_at()` of this search.
    Fetch(Pager),
    /// The search is complete: these are its issues, in the tracker's order.
    Done(Vec<NormalizedIssue>),
    /// The search has failed. The issues gathered so far are gone.
    Failed {
        /// Where the page started that was asked for.
        start_at: u64,
        error: ReportError,
    },
}

/// Whether `step` follows when a page with `fresh` issues arrives after the
/// issues `before`, and the tracker counts `total` in all: the search is done once
/// as many issues are there as the tracker counts, and goes on until then.
pub open spec fn is_page_step(
    before: Seq<IssueView>,
    total: u64,
    fresh: Seq<IssueView>,
    step: Step,
) -> bool {
    let all = before + fresh;
    if all.len() >= total {
        step matches Step::Done(issues) && issue_views(issues@) == all
    } else {
        step matches Step::Fetch(pager) && pager.gathered() == all
    }
}

/// Whether `step` follows when the document `doc` arrives after the issues
/// `before`.
pub open spec fn is_document_step(before: Seq<IssueView>, doc: Json, step: Step) -> bool {
    match page_result(doc) {
        Ok((total, fresh)) => is_page_step(before, total, fresh, step),
        Err(e) => step matches Step::Failed { start_at, error } && start_at == before.len()
            && error == e,
    }
}

/// Whether `step` follows when `reply` arrives after the issues `before`.
pub open spec fn is_reply_step(before: Seq<IssueView>, reply: Reply, step: Step) -> bool {
    match reply {
        Reply::Failed => step matches Step::Failed { start_at, error } && start_at == before.len()
            && error == ReportError::Transport,
        Reply::Body(bytes) => match json_document(bytes@) {
            Some(doc) => is_document_step(before, doc, step),
            None => step matches Step::Failed { start_at, error } && start_at == before.len()
                && error == ReportError::Schema(SchemaError::NotJson),
        },
    }
}

impl Pager {
    /// The issues received so far, in the order in which they came.
    pub closed spec fn gathered(self) -> Seq<IssueView> {
        issue_views(self.gathered@)
    }

    /// A search of which nothing has been received.
    pub fn new() -> (r: Pager)
        ensures
            r.gathered() == Seq::<IssueView>::empty(),
    {
        let r = Pager { gathered: Vec::new() };
        assert(r.gathered() =~= Seq::<IssueView>::empty());
        r
    }

    /// Where the next page starts: behind the issues received so far.
    pub fn start_at(&self) -> (r: u64)
        ensures
            r == self.gathered().len(),
    {
        self.gathered.len() as u64
    }

    /// Takes a page in.
    pub fn accept(self, page: Page) -> (step: Step)
        ensures
            is_page_step(self.gathered(), page.total, issue_views(page.issues@), step),
    {
        let mut gathered = self.gathered;
        let mut fresh = page.issues;
        gathered.append(&mut fresh);
        assert(issue_views(gathered@) =~= self.gathered() + issue_views(page.issues@));
        if gathered.len() as u64 >= page.total {
            Step::Done(gathered)
        } else {
            Step::Fetch(Pager { gathered })
        }
    }

    /// Takes in the document that answers the request for the next page.
    pub fn accept_document(self, doc: &Json) -> (step: Step)
        ensures
            is_document_step(self.gathered(), *doc, step),
    {
        match decode_page(doc) {
            Ok(page) => self.accept(page),
            Err(error) => Step::Failed { start_at: self.start_at(), error },
        }
    }

    /// Takes in what came back for the request for the next page, and says what
    /// is to be done next.
    pub fn advance(self, reply: Reply) -> (step: Step)
        ensures
            is_reply_step(self.gathered(), reply, step),
    {
        match reply {
            Reply::Failed => Step::Failed {
                start_at: self.start_at(),
                error: ReportError::Transport,
            },
            Reply::Body(bytes) => match Json::parse(bytes.as_slice()) {
                Some(doc) => self.accept_document(&doc),
                None => Step::Failed {
                    start_at: self.start_at(),
                    error: ReportError::Schema(SchemaError::NotJson),
                },
            },
        }
    }
}

} // verus!
