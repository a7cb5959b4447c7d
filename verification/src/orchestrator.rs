//! The collection orchestrator's decisions: which sources one
//! configured project gets, and how one project's pass feeds the store
//! and reports its new-row count summed across sources.
//!
//! Fetching — cloning, syncing, reading the log, calling the release
//! API — is the caller's affair: the caller hands each built source its
//! fetched payload (or nothing, when fetching failed), and this module
//! does the rest.

use vstd::prelude::*;

use crate::config::ProjectConfig;
use crate::event::EventView;
use crate::github::{releases_events_spec, GitHubCollector};
use crate::normalize::{raws_view, CollectError, RawEvent};
use crate::pattern::opt_pattern_view;
use crate::repo::{
    find_from, lines_events_spec, workspace_dir_spec, GitCollector,
};
use crate::store::{append_all, count_new, HistoryStore};
use crate::text;

verus! {

/// Split an `owner/repository` pair: the owner before the first `/`,
/// the repository between the first and second `/` (or the end); both
/// must be non-empty.
pub open spec fn owner_repo_spec(s: Seq<char>) -> Option<(Seq<char>, Seq<char>)> {
    let i = find_from(s, '/', 0);
    if i < s.len() {
        let j = find_from(s, '/', i + 1);
        if 0 < i && i + 1 < j {
            Some((s.subrange(0, i), s.subrange(i + 1, j)))
        } else {
            None
        }
    } else {
        None
    }
}

/// Executable `owner_repo_spec`.
pub fn split_owner_repo(s: &str) -> (r: Option<(String, String)>)
    ensures
        r is Some <==> owner_repo_spec(s@) is Some,
        r matches Some(p) ==> owner_repo_spec(s@) == Some((p.0@, p.1@)),
{
    let v = text::chars_of(s);
    let n = v.len();
    let i = crate::repo::find_char(&v, '/', 0);
    if i >= n {
        return None;
    }
    let j = crate::repo::find_char(&v, '/', i + 1);
    if !(0 < i && i + 1 < j) {
        return None;
    }
    let owner = s.substring_char(0, i).to_owned();
    let repo = s.substring_char(i + 1, j).to_owned();
    Some((owner, repo))
}

/// The sources one project's configuration yields. A source whose
/// configuration is unusable is dropped with its error recorded —
/// fatal to that source only, the other proceeds.
pub struct ProjectSources {
    pub git: Option<GitCollector>,
    pub github: Option<GitHubCollector>,
    pub git_error: Option<CollectError>,
    pub github_error: Option<CollectError>,
}

/// Build the applicable sources for one configured project: a project
/// may have a repository source, a release source, both, or neither.
/// The tracked branch defaults to `master`.
pub fn build_sources(rootdir: &str, project_name: &str, project: &ProjectConfig) -> (r:
    ProjectSources)
    ensures
        project.source is None ==> r.git is None && r.github is None && r.git_error is None
            && r.github_error is None,
        (match project.source {
            None => true,
            Some(src) => {
                &&& (match src.git {
                    None => r.git is None && r.git_error is None,
                    Some(g) => (match workspace_dir_spec(rootdir@, g@) {
                        None => r.git is None && r.git_error == Some(
                            CollectError::InvalidRemote,
                        ),
                        Some(dir) => {
                            let branch_v = match src.branch {
                                Some(b) => b@,
                                None => "master"@,
                            };
                            match project.version_regex {
                                Some(rx) => {
                                    &&& crate::pattern::regex_pattern_valid(rx@) ==> (
                                    r.git matches Some(c) && c.project_name@ == project_name@
                                        && c.clone_url@ == g@ && c.url@ == project.url@
                                        && c.branch@ == branch_v && c.directory@ == dir
                                        && opt_pattern_view(c.version_pattern) == Some(rx@)
                                        && r.git_error is None)
                                    &&& !crate::pattern::regex_pattern_valid(rx@) ==> (
                                    r.git is None && r.git_error == Some(
                                        CollectError::InvalidPattern,
                                    ))
                                },
                                None => r.git matches Some(c) && c.project_name@
                                    == project_name@ && c.clone_url@ == g@ && c.url@
                                    == project.url@ && c.branch@ == branch_v && c.directory@
                                    == dir && c.version_pattern is None && r.git_error is None,
                            }
                        },
                    }),
                })
                &&& (match src.github {
                    None => r.github is None && r.github_error is None,
                    Some(s) => (match owner_repo_spec(s@) {
                        None => r.github is None && r.github_error == Some(
                            CollectError::InvalidRemote,
                        ),
                        Some(pair) => match project.version_regex {
                            Some(rx) => {
                                &&& crate::pattern::regex_pattern_valid(rx@) ==> (
                                r.github matches Some(c) && c.project_name@ == project_name@
                                    && c.owner@ == pair.0 && c.repo_name@ == pair.1
                                    && opt_pattern_view(c.version_pattern) == Some(rx@)
                                    && r.github_error is None)
                                &&& !crate::pattern::regex_pattern_valid(rx@) ==> (
                                r.github is None && r.github_error == Some(
                                    CollectError::InvalidPattern,
                                ))
                            },
                            None => r.github matches Some(c) && c.project_name@
                                == project_name@ && c.owner@ == pair.0 && c.repo_name@
                                == pair.1 && c.version_pattern is None && r.github_error
                                is None,
                        },
                    }),
                })
            },
        }),
{
    let src = match &project.source {
        None => {
            return ProjectSources {
                git: None,
                github: None,
                git_error: None,
                github_error: None,
            };
        },
        Some(s) => s,
    };
    let mut git: Option<GitCollector> = None;
    let mut git_error: Option<CollectError> = None;
    match &src.git {
        None => {},
        Some(g) => {
            let branch = match &src.branch {
                Some(b) => b.clone(),
                None => "master".to_owned(),
            };
            match GitCollector::new(
                rootdir,
                g.as_str(),
                project_name,
                project.url.as_str(),
                branch.as_str(),
                &project.version_regex,
            ) {
                Ok(c) => {
                    git = Some(c);
                },
                Err(e) => {
                    git_error = Some(e);
                },
            }
        },
    }
    let mut github: Option<GitHubCollector> = None;
    let mut github_error: Option<CollectError> = None;
    match &src.github {
        None => {},
        Some(s) => {
            match split_owner_repo(s.as_str()) {
                None => {
                    github_error = Some(CollectError::InvalidRemote);
                },
                Some((owner, repo)) => {
                    match GitHubCollector::new(
                        project_name,
                        owner.as_str(),
                        repo.as_str(),
                        &project.version_regex,
                    ) {
                        Ok(c) => {
                            github = Some(c);
                        },
                        Err(e) => {
                            github_error = Some(e);
                        },
                    }
                },
            }
        },
    }
    ProjectSources { git, github, git_error, github_error }
}

/// What one source pass leaves in the store: its events inserted in
/// order when extraction succeeded, the store untouched when it failed.
pub open spec fn pass_store(s0: Seq<EventView>, r: Result<Seq<EventView>, CollectError>) -> Seq<
    EventView,
> {
    match r {
        Ok(evs) => append_all(s0, evs),
        Err(_) => s0,
    }
}

/// How many rows one source pass adds.
pub open spec fn pass_count(s0: Seq<EventView>, r: Result<Seq<EventView>, CollectError>) -> int {
    match r {
        Ok(evs) => count_new(s0, evs),
        Err(_) => 0,
    }
}

pub open spec fn pass_error(r: Result<Seq<EventView>, CollectError>) -> Option<CollectError> {
    match r {
        Ok(_) => None,
        Err(e) => Some(e),
    }
}

/// The repository pass's extraction result: nothing when the source was
/// not built or its log was not fetched.
pub open spec fn repo_pass_spec(
    git: Option<GitCollector>,
    lines: Option<Vec<String>>,
) -> Result<Seq<EventView>, CollectError> {
    match (git, lines) {
        (Some(c), Some(ls)) => lines_events_spec(
            opt_pattern_view(c.version_pattern),
            c.project_name@,
            c.branch@,
            c.url@,
            text::strings_view(ls@),
        ),
        _ => Ok(Seq::empty()),
    }
}

/// The release pass's extraction result: nothing when the source was
/// not built or the page was not fetched.
pub open spec fn api_pass_spec(
    github: Option<GitHubCollector>,
    releases: Option<Vec<RawEvent>>,
) -> Result<Seq<EventView>, CollectError> {
    match (github, releases) {
        (Some(c), Some(rs)) => releases_events_spec(
            opt_pattern_view(c.version_pattern),
            c.project_name@,
            raws_view(rs@),
        ),
        _ => Ok(Seq::empty()),
    }
}

/// One project's outcome: new rows summed across its sources, and each
/// source's failure, if any.
pub struct ProjectOutcome {
    pub new_rows: usize,
    pub git_error: Option<CollectError>,
    pub github_error: Option<CollectError>,
}

proof fn lemma_append_all_len(s0: Seq<EventView>, evs: Seq<EventView>)
    ensures
        append_all(s0, evs).len() == s0.len() + count_new(s0, evs),
        count_new(s0, evs) >= 0,
    decreases evs.len(),
{
    if evs.len() > 0 {
        lemma_append_all_len(s0, evs.drop_last());
    }
}

/// Run one project's pass: the repository pass first, then the release
/// pass, each feeding the store idempotently; the reported count sums
/// both. A source that was not built, or whose payload is absent, adds
/// nothing; a pass failure leaves that pass's rows out and is reported.
pub fn collect_project(
    store: &mut HistoryStore,
    sources: &ProjectSources,
    repo_lines: &Option<Vec<String>>,
    releases: &Option<Vec<RawEvent>>,
) -> (r: ProjectOutcome)
    requires
        old(store).inv(),
    ensures
        final(store).inv(),
        ({
            let repo_r = repo_pass_spec(sources.git, *repo_lines);
            let mid = pass_store(old(store)@, repo_r);
            let api_r = api_pass_spec(sources.github, *releases);
            &&& final(store)@ == pass_store(mid, api_r)
            &&& r.new_rows == pass_count(old(store)@, repo_r) + pass_count(mid, api_r)
            &&& r.git_error == pass_error(repo_r)
            &&& r.github_error == pass_error(api_r)
        }),
{
    let ghost s0 = store@;
    let mut n1: usize = 0;
    let mut git_error: Option<CollectError> = None;
    match (&sources.git, repo_lines) {
        (Some(c), Some(lines)) => {
            match c.collect(store, lines) {
                Ok(n) => {
                    n1 = n;
                },
                Err(e) => {
                    git_error = Some(e);
                },
            }
        },
        _ => {},
    }
    proof {
        let repo_r = repo_pass_spec(sources.git, *repo_lines);
        assert(append_all(s0, Seq::<EventView>::empty()) == s0);
        assert(store@ == pass_store(s0, repo_r));
        assert(n1 == pass_count(s0, repo_r));
        if repo_r is Ok {
            lemma_append_all_len(s0, repo_r->Ok_0);
        }
    }
    let ghost mid = store@;
    let mut n2: usize = 0;
    let mut github_error: Option<CollectError> = None;
    match (&sources.github, releases) {
        (Some(c), Some(rels)) => {
            match c.get_releases(store, rels) {
                Ok(n) => {
                    n2 = n;
                },
                Err(e) => {
                    github_error = Some(e);
                },
            }
        },
        _ => {},
    }
    proof {
        let api_r = api_pass_spec(sources.github, *releases);
        assert(append_all(mid, Seq::<EventView>::empty()) == mid);
        assert(store@ == pass_store(mid, api_r));
        assert(n2 == pass_count(mid, api_r));
        if api_r is Ok {
            lemma_append_all_len(mid, api_r->Ok_0);
        }
    }
    let total_rows = store.len();
    proof {
        assert(n1 + n2 <= total_rows);
    }
    ProjectOutcome { new_rows: n1 + n2, git_error, github_error }
}

} // verus!
