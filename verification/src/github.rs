//! The GitHub-style tracker: one search, answered by one document in which the
//! issues lie under the wrappers `data`, `search`, `edges` and `node`.

use crate::error::{ReportError, SchemaError};
use crate::issue::{issue_views, texts, Backend, IssueView, NormalizedIssue};
use crate::json::{
    first_missing, json_document, json_quoted, lemma_first_missing, quote, Json,
};
use crate::key::{decimal_digits, decimal_text, lemma_decimal_digits};
use crate::order::{sort_by, stably_sorted, SortKey};
use crate::report::{render, report_text};
use vstd::prelude::*;
use vstd::string::StringExecFns;

verus! {

/// Where the search is sent.
pub const API_URL: &'static str = "https://api.github.com/graphql";

/// The name under which the requests are made.
pub const USER_AGENT: &'static str = "d3zd3z-jirasync";

/// The search expression: the open and closed issues of one assignee in one
/// repository.
pub const SEARCH_EXPRESSION: &'static str = "assignee:d3zd3z is:issue repo:zephyrproject-rtos/zephyr";

/// The query that is sent: the search, and the fields wanted of each issue.
pub const QUERY: &'static str =
    "\n{\n  search(query: \"assignee:d3zd3z is:issue repo:zephyrproject-rtos/zephyr\",\n    type: ISSUE, last:100) {\n    edges {\n      node {\n        ... on Issue {\n          title\n          url\n          state\n          number\n        }\n      }\n    }\n  }\n}";

/// The title line of the report.
pub const TITLE_LINE: &'static str = "Issues at [https://github.com/zephyrproject-rtos/zephyr/]";

/// An issue as the tracker gives it.
#[derive(Debug, PartialEq, Eq)]
pub struct Node {
    pub title: String,
    pub state: String,
    pub url: String,
    pub number: u64,
}

/// What a `Node` holds.
pub ghost struct NodeView {
    pub title: Seq<char>,
    pub state: Seq<char>,
    pub url: Seq<char>,
    pub number: u64,
}

impl View for Node {
    type V = NodeView;

    open spec fn view(&self) -> NodeView {
        NodeView { title: self.title@, state: self.state@, url: self.url@, number: self.number }
    }
}

/// The entry of the list of issues: a wrapper round one issue.
#[derive(Debug, PartialEq, Eq)]
pub enum Edge {
    Node(Node),
}

/// The wrapper round the list of issues.
#[derive(Debug, PartialEq, Eq)]
pub enum Edges {
    Edges(Vec<Edge>),
}

/// The wrapper round the result of the search.
#[derive(Debug, PartialEq, Eq)]
pub enum Search {
    Search(Edges),
}

/// The answer to the search.
#[derive(Debug, PartialEq, Eq)]
pub enum QueryResult {
    Data(Search),
}

/// The views of a list of nodes.
pub open spec fn node_views(list: Seq<Node>) -> Seq<NodeView> {
    Seq::new(list.len(), |i: int| list[i]@)
}

/// The node inside an edge.
pub open spec fn node_in(edge: Edge) -> Node {
    match edge {
        Edge::Node(node) => node,
    }
}

/// The issue that a node is brought into: it goes by its number, and has no
/// versions.
pub open spec fn issue_of_node(node: NodeView) -> IssueView {
    IssueView {
        key_or_number: decimal_digits(node.number as nat),
        title: node.title,
        url: node.url,
        status: node.state,
        fix_versions: Seq::empty(),
        numeric_order: node.number,
    }
}

/// The issue that a node is brought into has a key, and is ranked by it.
pub proof fn lemma_issue_of_node_wf(node: NodeView)
    ensures
        issue_of_node(node).wf(),
{
    lemma_decimal_digits(node.number as nat);
}

/// The issues that a list of nodes is brought into.
pub open spec fn issues_of_nodes(nodes: Seq<NodeView>) -> Seq<IssueView> {
    Seq::new(nodes.len(), |i: int| issue_of_node(nodes[i]))
}

/// The list under the wrappers `data`, `search` and `edges`, each of which is an
/// object with this one member. `None` where a wrapper is missing or is not alone,
/// or where what lies under `edges` is no list.
pub open spec fn edges_of(doc: Json) -> Option<Seq<Json>> {
    match doc.sole_field("data"@) {
        Some(data) => match data.sole_field("search"@) {
            Some(search) => match search.sole_field("edges"@) {
                Some(edges) => edges.items(),
                None => None,
            },
            None => None,
        },
        None => None,
    }
}

/// The issue in an entry of the list: the entry is an object with the one member
/// `node`, an object whose members `title`, `state` and `url` are texts and whose
/// member `number` is a non-negative integer. Other members of the node do not
/// count.
pub open spec fn node_of(entry: Json) -> Option<NodeView> {
    match entry.sole_field("node"@) {
        Some(node) => match (
            node.field("title"@),
            node.field("state"@),
            node.field("url"@),
            node.field("number"@),
        ) {
            (
                Some(Json::Text(title)),
                Some(Json::Text(state)),
                Some(Json::Text(url)),
                Some(Json::Number(Some(number))),
            ) => Some(NodeView { title: title@, state: state@, url: url@, number }),
            _ => None,
        },
        None => None,
    }
}

/// The issue in each entry of `entries`.
pub open spec fn nodes_of(entries: Seq<Json>) -> Seq<Option<NodeView>> {
    Seq::new(entries.len(), |i: int| node_of(entries[i]))
}

/// What a document holds: the issues of its list in their order, or the error
/// that says where the document departs from the expected shape.
pub open spec fn search_result(doc: Json) -> Result<Seq<NodeView>, SchemaError> {
    match edges_of(doc) {
        None => Err(SchemaError::Envelope),
        Some(entries) => {
            let bad = first_missing(nodes_of(entries));
            if bad < entries.len() {
                Err(SchemaError::Record(bad as usize))
            } else {
                Ok(Seq::new(entries.len(), |i: int| node_of(entries[i])->Some_0))
            }
        },
    }
}

/// Reads the issue out of one entry of the list.
pub fn decode_node(entry: &Json) -> (r: Option<Node>)
    ensures
        match r {
            Some(node) => node_of(*entry) == Some(node@),
            None => node_of(*entry) is None,
        },
{
    let node = match entry.sole_member("node") {
        Some(node) => node,
        None => { return None; },
    };
    let title = match node.member("title") {
        Some(Json::Text(s)) => s.clone(),
        _ => { return None; },
    };
    let state = match node.member("state") {
        Some(Json::Text(s)) => s.clone(),
        _ => { return None; },
    };
    let url = match node.member("url") {
        Some(Json::Text(s)) => s.clone(),
        _ => { return None; },
    };
    let number = match node.member("number") {
        Some(Json::Number(Some(n))) => *n,
        _ => { return None; },
    };
    Some(Node { title, state, url, number })
}

impl QueryResult {
    /// The issues in this answer, in their order.
    pub open spec fn nodes(self) -> Seq<Node> {
        match self {
            QueryResult::Data(Search::Search(Edges::Edges(edges))) => Seq::new(
                edges@.len(),
                |i: int| node_in(edges@[i]),
            ),
        }
    }

    /// Reads the answer out of a document. Every wrapper has to be there, alone
    /// and under its name, and every entry of the list has to hold an issue: the
    /// first entry that does not is reported.
    pub fn from_json(doc: &Json) -> (r: Result<QueryResult, SchemaError>)
        ensures
            match search_result(*doc) {
                Ok(nodes) => r is Ok && node_views(r->Ok_0.nodes()) == nodes,
                Err(e) => r == Err::<QueryResult, SchemaError>(e),
            },
    {
        let data = match doc.sole_member("data") {
            Some(data) => data,
            None => { return Err(SchemaError::Envelope); },
        };
        let search = match data.sole_member("search") {
            Some(search) => search,
            None => { return Err(SchemaError::Envelope); },
        };
        let edges = match search.sole_member("edges") {
            Some(edges) => edges,
            None => { return Err(SchemaError::Envelope); },
        };
        let entries = match edges.as_list() {
            Some(entries) => entries,
            None => { return Err(SchemaError::Envelope); },
        };
        assert(edges_of(*doc) == Some(entries@));
        let mut list: Vec<Edge> = Vec::new();
        let mut i: usize = 0;
        while i < entries.len()
            invariant
                i <= entries@.len(),
                edges_of(*doc) == Some(entries@),
                list@.len() == i,
                forall|j: int|
                    0 <= j < i ==> node_of(entries@[j]) == Some(node_in(#[trigger] list@[j])@),
            decreases entries@.len() - i,
        {
            match decode_node(&entries[i]) {
                Some(node) => {
                    list.push(Edge::Node(node));
                },
                None => {
                    proof {
                        assert forall|j: int| 0 <= j < i implies nodes_of(
                            entries@,
                        )[j] is Some by {
                            assert(node_of(entries@[j]) == Some(node_in(list@[j])@));
                        }
                        lemma_first_missing(nodes_of(entries@), i as int);
                    }
                    return Err(SchemaError::Record(i));
                },
            }
            i += 1;
        }
        proof {
            assert forall|j: int| 0 <= j < i implies nodes_of(entries@)[j] is Some by {
                assert(node_of(entries@[j]) == Some(node_in(list@[j])@));
            }
            lemma_first_missing(nodes_of(entries@), i as int);
        }
        let r = QueryResult::Data(Search::Search(Edges::Edges(list)));
        assert(node_views(r.nodes()) =~= Seq::new(
            entries@.len(),
            |i: int| node_of(entries@[i])->Some_0,
        ));
        Ok(r)
    }

    /// Takes the issues out of the wrappers, in their order.
    pub fn into_nodes(self) -> (r: Vec<Node>)
        ensures
            r@ == self.nodes(),
    {
        match self {
            QueryResult::Data(search) => match search {
                Search::Search(edges) => match edges {
                    Edges::Edges(list) => {
                        let ghost all = list@;
                        let mut r: Vec<Node> = Vec::new();
                        for edge in it: list
                            invariant
                                it.seq() == all,
                                r@.len() == it.index(),
                                forall|j: int|
                                    0 <= j < r@.len() ==> #[trigger] r@[j] == node_in(all[j]),
                        {
                            match edge {
                                Edge::Node(node) => {
                                    r.push(node);
                                },
                            }
                        }
                        assert(r@ =~= self.nodes());
                        r
                    },
                },
            },
        }
    }
}

impl NormalizedIssue {
    /// The issue that a node of the GitHub-style tracker is brought into: its key
    /// is its number in decimal digits.
    pub fn from_node(node: Node) -> (r: NormalizedIssue)
        ensures
            r@ == issue_of_node(node@),
            r@.wf(),
    {
        proof {
            lemma_issue_of_node_wf(node@);
        }
        let r = NormalizedIssue {
            key_or_number: decimal_text(node.number),
            title: node.title,
            url: node.url,
            status: node.state,
            fix_versions: Vec::new(),
            numeric_order: node.number,
        };
        assert(texts(r.fix_versions@) == Seq::<Seq<char>>::empty());
        r
    }
}

/// Whether `text` is the report on `nodes`: the issues in the order of their
/// numbers, in the table of the GitHub-style tracker, under the title of the
/// repository and over the search expression.
pub open spec fn is_github_report(nodes: Seq<NodeView>, text: Seq<char>) -> bool {
    exists|sorted: Seq<IssueView>|
        stably_sorted(SortKey::Number, issues_of_nodes(nodes), sorted) && text == report_text(
            TITLE_LINE@,
            Backend::Github,
            sorted,
            SEARCH_EXPRESSION@,
        )
}

/// Whether `r` is what the document `doc` leads to: the report on its issues, or
/// the error that says where it departs from the expected shape.
pub open spec fn is_document_outcome(doc: Json, r: Result<String, ReportError>) -> bool {
    match search_result(doc) {
        Ok(nodes) => r is Ok && is_github_report(nodes, r->Ok_0@),
        Err(e) => r == Err::<String, ReportError>(ReportError::Schema(e)),
    }
}

/// The report on the issues `nodes`, sorted by number.
pub fn dump_github(nodes: Vec<Node>) -> (r: String)
    ensures
        is_github_report(node_views(nodes@), r@),
{
    let ghost views = node_views(nodes@);
    let mut issues: Vec<NormalizedIssue> = Vec::new();
    for node in it: nodes
        invariant
            it.seq() == nodes@,
            issues@.len() == it.index(),
            forall|j: int|
                0 <= j < issues@.len() ==> (#[trigger] issues@[j])@ == issue_of_node(nodes@[j]@),
    {
        issues.push(NormalizedIssue::from_node(node));
    }
    assert(issue_views(issues@) =~= issues_of_nodes(views));
    let sorted = sort_by(&issues, SortKey::Number);
    render(TITLE_LINE, Backend::Github, &sorted, SEARCH_EXPRESSION)
}

/// The report on the issues that the document `doc` holds.
pub fn report_of_document(doc: &Json) -> (r: Result<String, ReportError>)
    ensures
        is_document_outcome(*doc, r),
{
    match QueryResult::from_json(doc) {
        Ok(answer) => Ok(dump_github(answer.into_nodes())),
        Err(e) => Err(ReportError::Schema(e)),
    }
}

/// The report on the issues in the answer `body` of the GitHub-style tracker.
/// There is none where the answer is not a JSON document, or not one of the
/// expected shape.
pub fn query_zephyr(body: &[u8]) -> (r: Result<String, ReportError>)
    ensures
        match json_document(body@) {
            Some(doc) => is_document_outcome(doc, r),
            None => r == Err::<String, ReportError>(ReportError::Schema(SchemaError::NotJson)),
        },
{
    match Json::parse(body) {
        Some(doc) => report_of_document(&doc),
        None => Err(ReportError::Schema(SchemaError::NotJson)),
    }
}

/// The body of the request that carries `query`: a JSON object with the one
/// member `query`, whose value is the query as a JSON string.
pub fn request_body(query: &str) -> (r: Result<String, ReportError>)
    ensures
        match json_quoted(query@) {
            Some(quoted) => r is Ok && r->Ok_0@ == "{\"query\":"@ + quoted + "}"@,
            None => r == Err::<String, ReportError>(ReportError::Transport),
        },
{
    match quote(query) {
        Some(quoted) => {
            let mut body = String::from_str("{\"query\":");
            body.append(quoted.as_str());
            body.append("}");
            Ok(body)
        },
        None => Err(ReportError::Transport),
    }
}

} // verus!
