//! The trackers that are known by a short name.

use crate::text::same_text;
use vstd::prelude::*;
use vstd::string::StringExecFns;

verus! {

/// Where the issues of a project are found.
#[derive(Debug, PartialEq, Eq)]
pub struct Project {
    /// The host of the tracker.
    pub host: String,
    /// The search expression that selects the issues.
    pub query: String,
    /// The prefix of the project's keys, as the title of the report shows it.
    pub name: String,
}

/// What a `Project` holds.
pub ghost struct ProjectView {
    pub host: Seq<char>,
    pub query: Seq<char>,
    pub name: Seq<char>,
}

impl View for Project {
    type V = ProjectView;

    open spec fn view(&self) -> ProjectView {
        ProjectView { host: self.host@, query: self.query@, name: self.name@ }
    }
}

/// The project that goes by the short name `name`.
pub open spec fn project_named(name: Seq<char>) -> Option<ProjectView> {
    if name == "zephyr"@ {
        Some(
            ProjectView {
                host: "jira.zephyrproject.org"@,
                query: "assignee = currentUser()\n                    ORDER BY priority DESC, updated DESC"@,
                name: "ZEP"@,
            },
        )
    } else if name == "mcuboot"@ {
        Some(
            ProjectView {
                host: "runtimeco.atlassian.net"@,
                query: "(fixVersion = 1.1 OR fixVersion = 1.2) AND\n                    assignee = currentUser()\n                    ORDER BY priority DESC, updated DESC"@,
                name: "MCUB"@,
            },
        )
    } else {
        None
    }
}

/// Looks a project up by its short name. The names are `zephyr` and `mcuboot`.
pub fn get_project(name: &str) -> (r: Option<Project>)
    ensures
        match r {
            Some(project) => project_named(name@) == Some(project@),
            None => project_named(name@) is None,
        },
{
    if same_text(name, "zephyr") {
        Some(
            Project {
                host: String::from_str("jira.zephyrproject.org"),
                query: String::from_str(
                    "assignee = currentUser()\n                    ORDER BY priority DESC, updated DESC",
                ),
                name: String::from_str("ZEP"),
            },
        )
    } else if same_text(name, "mcuboot") {
        Some(
            Project {
                host: String::from_str("runtimeco.atlassian.net"),
                query: String::from_str(
                    "(fixVersion = 1.1 OR fixVersion = 1.2) AND\n                    assignee = currentUser()\n                    ORDER BY priority DESC, updated DESC",
                ),
                name: String::from_str("MCUB"),
            },
        )
    } else {
        None
    }
}

/// Where a report comes from.
#[derive(Debug, PartialEq, Eq)]
pub enum Target {
    /// The one search on the GitHub-style tracker.
    Github,
    /// A project on a JIRA-style tracker.
    Jira(Project),
}

/// What the name `name` selects. `zephyr` has moved to the GitHub-style tracker,
/// so it selects the search there and not the project of that name.
pub open spec fn target_named(name: Seq<char>) -> Option<Option<ProjectView>> {
    if name == "zephyr"@ {
        Some(None)
    } else {
        match project_named(name) {
            Some(project) => Some(Some(project)),
            None => None,
        }
    }
}

/// Selects the tracker to report on by the name given on the command line.
pub fn select_target(name: &str) -> (r: Option<Target>)
    ensures
        match r {
            Some(Target::Github) => target_named(name@) == Some(None::<ProjectView>),
            Some(Target::Jira(project)) => target_named(name@) == Some(Some(project@)),
            None => target_named(name@) is None,
        },
{
    if same_text(name, "zephyr") {
        Some(Target::Github)
    } else {
        match get_project(name) {
            Some(project) => Some(Target::Jira(project)),
            None => None,
        }
    }
}

} // verus!
