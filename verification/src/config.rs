//! Configuration as the core consumes it: a project table keyed by
//! name, each entry optionally carrying a repository remote and branch,
//! an owner/repository pair, a canonical project URL, and an optional
//! version-extraction pattern. Loading the file is the caller's affair.

use vstd::prelude::*;

verus! {

/// Which sources a project is collected from, and their parameters.
pub struct ProjectSourceConfig {
    /// The repository remote to clone and inspect.
    pub git: Option<String>,
    /// The branch to track; `master` when absent.
    pub branch: Option<String>,
    /// The `owner/repository` pair on the release host.
    pub github: Option<String>,
}

/// One configured project.
pub struct ProjectConfig {
    /// The project's canonical URL.
    pub url: String,
    /// The sources to collect from; a project without any is skipped.
    pub source: Option<ProjectSourceConfig>,
    /// The optional version-extraction pattern.
    pub version_regex: Option<String>,
}

/// The whole configuration.
pub struct Config {
    /// The workspace root all repository clones live under.
    pub rootdir: String,
    /// An optional key for authenticated cloning.
    pub git_ssh_key: Option<String>,
    /// An optional bearer credential for the release API.
    pub github_access_token: Option<String>,
    /// The configured projects, each under its name.
    pub projects: Vec<(String, ProjectConfig)>,
}

impl Config {
    /// The history store's backing file, directly under the workspace
    /// root.
    pub fn get_database_url(&self) -> (r: String)
        ensures
            r@ == self.rootdir@ + "/tamatebako.sqlite"@,
    {
        let mut u = self.rootdir.clone();
        u.append("/tamatebako.sqlite");
        u
    }
}

} // verus!
