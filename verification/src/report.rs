//! The report: a title, a table with one row for each issue, and the search
//! expression that gave the issues.

use crate::issue::{
    colorize, colorized, issue_views, versions_text, Backend, IssueView, NormalizedIssue,
};
use crate::order::{sort_issues, stably_sorted, SortKey};
use crate::project::{Project, ProjectView};
use crate::text::{escape, escaped};
use vstd::prelude::*;
use vstd::string::StringExecFns;

verus! {

/// The head of the table. Only the JIRA-style tracker has a column of versions.
pub open spec fn table_head(backend: Backend) -> Seq<char> {
    match backend {
        Backend::Jira => "||Issue||Description||Vers||Status||\n"@,
        Backend::Github => "||Issue||Description||Status||\n"@,
    }
}

/// The cell of versions with the bar that closes it; empty for the GitHub-style
/// tracker.
pub open spec fn versions_cell(backend: Backend, issue: IssueView) -> Seq<char> {
    match backend {
        Backend::Jira => versions_text(issue.fix_versions) + "|"@,
        Backend::Github => Seq::empty(),
    }
}

/// The row of one issue: its key as a link, its title escaped, its versions and
/// its status in colour.
pub open spec fn row_text(backend: Backend, issue: IssueView) -> Seq<char> {
    "|["@ + issue.key_or_number + "|"@ + issue.url + "]|"@ + escaped(issue.title) + "|"@
        + versions_cell(backend, issue) + colorized(backend, issue.status) + "|\n"@
}

/// The rows of `issues`, in their order.
pub open spec fn rows_text(backend: Backend, issues: Seq<IssueView>) -> Seq<char>
    decreases issues.len(),
{
    if issues.len() == 0 {
        Seq::empty()
    } else {
        rows_text(backend, issues.drop_last()) + row_text(backend, issues.last())
    }
}

/// The whole report.
pub open spec fn report_text(
    title_line: Seq<char>,
    backend: Backend,
    issues: Seq<IssueView>,
    trailing_note: Seq<char>,
) -> Seq<char> {
    title_line + "\n\n"@ + table_head(backend) + rows_text(backend, issues) + "\nQuery: {panel}"@
        + trailing_note + "{panel}\n"@
}

/// The title of the report on a project of the JIRA-style tracker.
pub open spec fn jira_title(project: ProjectView) -> Seq<char> {
    "Issues at [https://"@ + project.host + "/projects/"@ + project.name + "]"@
}

/// The row of the table that shows `issue`.
pub fn render_row(backend: Backend, issue: &NormalizedIssue) -> (r: String)
    ensures
        r@ == row_text(backend, issue@),
{
    let mut r = String::from_str("|[");
    r.append(issue.key_or_number.as_str());
    r.append("|");
    r.append(issue.url.as_str());
    r.append("]|");
    r.append(escape(issue.title.as_str()).as_str());
    r.append("|");
    match backend {
        Backend::Jira => {
            r.append(issue.nice_versions().as_str());
            r.append("|");
            assert(r@ == "|["@ + issue@.key_or_number + "|"@ + issue@.url + "]|"@ + escaped(
                issue@.title,
            ) + "|"@ + versions_cell(backend, issue@));
        },
        Backend::Github => {
            assert(r@ == "|["@ + issue@.key_or_number + "|"@ + issue@.url + "]|"@ + escaped(
                issue@.title,
            ) + "|"@ + versions_cell(backend, issue@));
        },
    }
    r.append(colorize(backend, issue.status.as_str()).as_str());
    r.append("|\n");
    r
}

/// Renders the report: the title line, an empty line, the head of the table, one
/// row for each issue in the order given, an empty line and the note.
pub fn render(
    title_line: &str,
    backend: Backend,
    issues: &Vec<NormalizedIssue>,
    trailing_note: &str,
) -> (r: String)
    ensures
        r@ == report_text(title_line@, backend, issue_views(issues@), trailing_note@),
{
    let ghost views = issue_views(issues@);
    let mut r = String::from_str(title_line);
    r.append("\n\n");
    match backend {
        Backend::Jira => r.append("||Issue||Description||Vers||Status||\n"),
        Backend::Github => r.append("||Issue||Description||Status||\n"),
    }
    let ghost top = r@;
    let mut i: usize = 0;
    assert(views.subrange(0, 0) == Seq::<IssueView>::empty());
    assert(top + Seq::<char>::empty() == top);
    while i < issues.len()
        invariant
            i <= issues@.len(),
            views == issue_views(issues@),
            r@ == top + rows_text(backend, views.subrange(0, i as int)),
        decreases issues@.len() - i,
    {
        let row = render_row(backend, &issues[i]);
        r.append(row.as_str());
        i += 1;
        proof {
            let now = views.subrange(0, i as int);
            assert(now.drop_last() == views.subrange(0, i - 1));
            assert(now.last() == issues@[i - 1]@);
            assert(top + rows_text(backend, now.drop_last()) + row@ == top + (rows_text(
                backend,
                now.drop_last(),
            ) + row@));
        }
    }
    assert(views.subrange(0, i as int) == views);
    r.append("\nQuery: {panel}");
    r.append(trailing_note);
    r.append("{panel}\n");
    r
}

/// The title line of the report on `project`.
pub fn title_of(project: &Project) -> (r: String)
    ensures
        r@ == jira_title(project@),
{
    let mut r = String::from_str("Issues at [https://");
    r.append(project.host.as_str());
    r.append("/projects/");
    r.append(project.name.as_str());
    r.append("]");
    r
}

/// The report on the issues of `project`: the issues are put in the order of the
/// report, by versions and by number inside each group of versions, and rendered
/// with the project's search expression as the note.
pub fn jira_report(project: &Project, issues: &Vec<NormalizedIssue>) -> (r: String)
    ensures
        exists|sorted: Seq<IssueView>|
            stably_sorted(SortKey::VersionsThenNumber, issue_views(issues@), sorted) && r@
                == report_text(jira_title(project@), Backend::Jira, sorted, project@.query),
{
    let sorted = sort_issues(issues);
    let title = title_of(project);
    render(title.as_str(), Backend::Jira, &sorted, project.query.as_str())
}

} // verus!
