//! The record that every tracker's issues are brought into, and how its status
//! and its versions are shown.

use crate::key::{lemma_last_dash, num_of_key, numeric_order, numeric_value, MalformedKeyError};
use crate::text::same_text;
use vstd::prelude::*;
use vstd::string::StringExecFns;

verus! {

/// The two trackers. Each has its own names for the states of an issue.
#[derive(Debug, Clone, Copy, PartialEq, Eq, Structural)]
pub enum Backend {
    /// The JIRA-style tracker, queried page by page.
    Jira,
    /// The GitHub-style tracker, queried once.
    Github,
}

/// An issue of either tracker.
#[derive(Debug, PartialEq, Eq)]
pub struct NormalizedIssue {
    /// The key (`ZEP-42`) or the number of the issue.
    pub key_or_number: String,
    pub title: String,
    pub url: String,
    /// The status as the tracker names it.
    pub status: String,
    /// The versions in which the issue is to be fixed, in the tracker's order.
    pub fix_versions: Vec<String>,
    /// The number by which the issue is ranked.
    pub numeric_order: u64,
}

/// What a `NormalizedIssue` holds.
pub ghost struct IssueView {
    pub key_or_number: Seq<char>,
    pub title: Seq<char>,
    pub url: Seq<char>,
    pub status: Seq<char>,
    pub fix_versions: Seq<Seq<char>>,
    pub numeric_order: u64,
}

/// The texts that a list of strings holds.
pub open spec fn texts(list: Seq<String>) -> Seq<Seq<char>> {
    Seq::new(list.len(), |i: int| list[i]@)
}

impl View for NormalizedIssue {
    type V = IssueView;

    open spec fn view(&self) -> IssueView {
        IssueView {
            key_or_number: self.key_or_number@,
            title: self.title@,
            url: self.url@,
            status: self.status@,
            fix_versions: texts(self.fix_versions@),
            numeric_order: self.numeric_order,
        }
    }
}

impl IssueView {
    /// An issue has a key, and is ranked by it: by the number after the last `-`
    /// of the key or, where the key is a number, by that number.
    pub open spec fn wf(self) -> bool {
        &&& self.key_or_number.len() > 0
        &&& numeric_order(self.key_or_number) == Ok::<u64, MalformedKeyError>(self.numeric_order)
            || numeric_value(self.key_or_number) == Some(self.numeric_order as nat)
    }
}

/// The views of a list of issues.
pub open spec fn issue_views(list: Seq<NormalizedIssue>) -> Seq<IssueView> {
    Seq::new(list.len(), |i: int| list[i]@)
}

/// `parts` in one text, with `sep` between each two.
pub open spec fn joined(parts: Seq<Seq<char>>, sep: Seq<char>) -> Seq<char>
    decreases parts.len(),
{
    if parts.len() == 0 {
        Seq::empty()
    } else if parts.len() == 1 {
        parts[0]
    } else {
        joined(parts.drop_last(), sep) + sep + parts.last()
    }
}

/// How a list of versions is shown: joined by commas, and as one space where that
/// would be the empty text.
pub open spec fn versions_text(versions: Seq<Seq<char>>) -> Seq<char> {
    let list = joined(versions, seq![',']);
    if list.len() == 0 {
        seq![' ']
    } else {
        list
    }
}

/// The colour in which `backend` shows the status `status`.
pub open spec fn color_of(backend: Backend, status: Seq<char>) -> Seq<char> {
    match backend {
        Backend::Jira => if status == "Open"@ {
            "red"@
        } else if status == "Resolved"@ || status == "Closed"@ {
            "green"@
        } else {
            "blue"@
        },
        Backend::Github => if status == "OPEN"@ {
            "red"@
        } else if status == "CLOSED"@ {
            "green"@
        } else {
            "blue"@
        },
    }
}

/// The status inside the markup that colours it.
pub open spec fn colorized(backend: Backend, status: Seq<char>) -> Seq<char> {
    "{color:"@ + color_of(backend, status) + "}"@ + status + "{color}"@
}

/// The name of the colour that `backend` gives to `status`. The names are matched
/// letter for letter: a state that the tracker does not name so is blue.
pub fn color_name(backend: Backend, status: &str) -> (r: &'static str)
    ensures
        r@ == color_of(backend, status@),
{
    match backend {
        Backend::Jira => {
            if same_text(status, "Open") {
                "red"
            } else if same_text(status, "Resolved") || same_text(status, "Closed") {
                "green"
            } else {
                "blue"
            }
        },
        Backend::Github => {
            if same_text(status, "OPEN") {
                "red"
            } else if same_text(status, "CLOSED") {
                "green"
            } else {
                "blue"
            }
        },
    }
}

/// Wraps `status` in the colour that `backend` gives to it.
pub fn colorize(backend: Backend, status: &str) -> (r: String)
    ensures
        r@ == colorized(backend, status@),
{
    let mut r = String::from_str("{color:");
    r.append(color_name(backend, status));
    r.append("}");
    r.append(status);
    r.append("{color}");
    r
}

/// Joins the versions by commas; one space stands for an empty list, so that the
/// result is never the empty text.
pub fn format_versions(versions: &Vec<String>) -> (r: String)
    ensures
        r@ == versions_text(texts(versions@)),
        r@.len() > 0,
        versions@.len() == 0 ==> r@ == seq![' '],
{
    let ghost parts = texts(versions@);
    let mut r = String::new();
    let mut i: usize = 0;
    while i < versions.len()
        invariant
            i <= versions@.len(),
            parts == texts(versions@),
            r@ == joined(parts.subrange(0, i as int), seq![',']),
        decreases versions@.len() - i,
    {
        if i > 0 {
            r.push(',');
        }
        r.append(versions[i].as_str());
        i += 1;
        proof {
            let now = parts.subrange(0, i as int);
            assert(now.drop_last() == parts.subrange(0, i - 1));
            assert(now.last() == versions@[i - 1]@);
            if i > 1 {
                assert(joined(now.drop_last(), seq![',']).push(',') == joined(
                    now.drop_last(),
                    seq![','],
                ) + seq![',']);
            } else {
                assert(now[0] == now.last());
            }
        }
    }
    assert(parts.subrange(0, i as int) == parts);
    if r.as_str().unicode_len() == 0 {
        r.push(' ');
        assert(r@ == seq![' ']);
    }
    r
}

impl NormalizedIssue {
    /// An issue of the JIRA-style tracker. It is ranked by the number after the
    /// last `-` of its key, and there is no issue where the key has none.
    pub fn jira(
        key: String,
        url: String,
        title: String,
        status: String,
        fix_versions: Vec<String>,
    ) -> (r: Result<NormalizedIssue, MalformedKeyError>)
        ensures
            match numeric_order(key@) {
                Ok(n) => r is Ok && r->Ok_0@ == (IssueView {
                    key_or_number: key@,
                    title: title@,
                    url: url@,
                    status: status@,
                    fix_versions: texts(fix_versions@),
                    numeric_order: n,
                }) && r->Ok_0@.wf(),
                Err(e) => r == Err::<NormalizedIssue, MalformedKeyError>(e),
            },
    {
        proof {
            lemma_last_dash(key@);
        }
        match num_of_key(key.as_str()) {
            Ok(n) => Ok(
                NormalizedIssue {
                    key_or_number: key,
                    title,
                    url,
                    status,
                    fix_versions,
                    numeric_order: n,
                },
            ),
            Err(e) => Err(e),
        }
    }

    /// A copy of this issue.
    pub fn duplicate(&self) -> (r: NormalizedIssue)
        ensures
            r@ == self@,
    {
        let mut versions: Vec<String> = Vec::new();
        let mut i: usize = 0;
        while i < self.fix_versions.len()
            invariant
                i <= self.fix_versions@.len(),
                versions@.len() == i,
                forall|j: int| 0 <= j < i ==> versions@[j]@ == self.fix_versions@[j]@,
            decreases self.fix_versions@.len() - i,
        {
            versions.push(self.fix_versions[i].clone());
            i += 1;
        }
        assert(texts(versions@) == texts(self.fix_versions@));
        NormalizedIssue {
            key_or_number: self.key_or_number.clone(),
            title: self.title.clone(),
            url: self.url.clone(),
            status: self.status.clone(),
            fix_versions: versions,
            numeric_order: self.numeric_order,
        }
    }

    /// The versions of this issue as the report shows them.
    pub fn nice_versions(&self) -> (r: String)
        ensures
            r@ == versions_text(self@.fix_versions),
            r@.len() > 0,
    {
        format_versions(&self.fix_versions)
    }

    /// The status of this issue in the colours of the JIRA-style tracker.
    pub fn decode_status(&self) -> (r: String)
        ensures
            r@ == colorized(Backend::Jira, self@.status),
    {
        colorize(Backend::Jira, self.status.as_str())
    }
}

} // verus!
