//! The release-API source: one page of releases, one raw event per
//! release — label from the tag name, timestamp from the creation time
//! (strict UTC ISO-8601), identity from the canonical release URL.
//!
//! Fetching the page is the caller's affair; this collector normalizes
//! what came back and feeds the store idempotently.

use vstd::prelude::*;

use crate::event::{EventView, VersionHistory};
use crate::normalize::{
    normalize_raw_event, normalize_spec, raws_view, CollectError, RawEvent, SourceKind,
};
use crate::pattern::{opt_pattern_view, VersionPattern};
use crate::store::{all_wf, append_all, contains_key, count_new, rows_view, spec_append, HistoryStore};

verus! {

/// The release-API collector for one configured project.
pub struct GitHubCollector {
    pub project_name: String,
    pub owner: String,
    pub repo_name: String,
    pub version_pattern: Option<VersionPattern>,
}

/// The events a page of releases yields, in page order: each release is
/// normalized under the project's pattern; a rejected label contributes
/// nothing; a creation time off the strict UTC format fails the pass.
/// A release event keeps no channel.
pub open spec fn releases_events_spec(
    p: Option<Seq<char>>,
    name: Seq<char>,
    rels: Seq<crate::normalize::RawEventView>,
) -> Result<Seq<EventView>, CollectError>
    decreases rels.len(),
{
    if rels.len() == 0 {
        Ok(Seq::empty())
    } else {
        match releases_events_spec(p, name, rels.drop_last()) {
            Err(e) => Err(e),
            Ok(evs) => match normalize_spec(
                p,
                rels.last(),
                name,
                ""@,
                ""@,
                SourceKind::ReleaseApi,
            ) {
                Err(e) => Err(e),
                Ok(None) => Ok(evs),
                Ok(Some(ev)) => Ok(evs.push(ev)),
            },
        }
    }
}

proof fn lemma_releases_err_propagates(
    p: Option<Seq<char>>,
    name: Seq<char>,
    rels: Seq<crate::normalize::RawEventView>,
    k: int,
)
    requires
        0 <= k <= rels.len(),
        releases_events_spec(p, name, rels.take(k)) is Err,
    ensures
        releases_events_spec(p, name, rels) == releases_events_spec(p, name, rels.take(k)),
    decreases rels.len() - k,
{
    if k < rels.len() {
        assert(rels.take(k + 1).drop_last() =~= rels.take(k));
        lemma_releases_err_propagates(p, name, rels, k + 1);
    } else {
        assert(rels.take(k) =~= rels);
    }
}

impl GitHubCollector {
    /// Build the collector for one project's owner/repository pair,
    /// compiling the optional version pattern.
    pub fn new(
        project_name: &str,
        owner: &str,
        repo_name: &str,
        version_regex: &Option<String>,
    ) -> (r: Result<GitHubCollector, CollectError>)
        ensures
            match *version_regex {
                Some(rx) => {
                    &&& crate::pattern::regex_pattern_valid(rx@) ==> (r matches Ok(c)
                        && c.project_name@ == project_name@ && c.owner@ == owner@
                        && c.repo_name@ == repo_name@ && opt_pattern_view(c.version_pattern)
                        == Some(rx@))
                    &&& !crate::pattern::regex_pattern_valid(rx@) ==> r == Err::<
                        GitHubCollector,
                        CollectError,
                    >(CollectError::InvalidPattern)
                },
                None => r matches Ok(c) && c.project_name@ == project_name@ && c.owner@
                    == owner@ && c.repo_name@ == repo_name@ && c.version_pattern is None,
            },
    {
        let version_pattern = match version_regex {
            Some(rx) => {
                match VersionPattern::new(rx.as_str()) {
                    Some(p) => Some(p),
                    None => {
                        return Err(CollectError::InvalidPattern);
                    },
                }
            },
            None => None,
        };
        Ok(
            GitHubCollector {
                project_name: project_name.to_owned(),
                owner: owner.to_owned(),
                repo_name: repo_name.to_owned(),
                version_pattern,
            },
        )
    }

    /// Normalize one release and insert it: 1 when a new row was added,
    /// 0 when the release was rejected or already recorded; an error on
    /// a creation time off the strict format leaves the store untouched.
    pub fn insert(
        &self,
        store: &mut HistoryStore,
        tag: &str,
        date: &str,
        release_url: &str,
    ) -> (r: Result<usize, CollectError>)
        requires
            old(store).inv(),
        ensures
            final(store).inv(),
            match normalize_spec(
                opt_pattern_view(self.version_pattern),
                crate::normalize::RawEventView {
                    label: tag@,
                    timestamp_text: date@,
                    identity: release_url@,
                },
                self.project_name@,
                ""@,
                ""@,
                SourceKind::ReleaseApi,
            ) {
                Ok(Some(ev)) => {
                    &&& final(store)@ == spec_append(old(store)@, ev)
                    &&& r == Ok::<usize, CollectError>(
                        if contains_key(old(store)@, ev) {
                            0usize
                        } else {
                            1usize
                        },
                    )
                },
                Ok(None) => r == Ok::<usize, CollectError>(0usize) && final(store)@ == old(
                    store,
                )@,
                Err(e) => r == Err::<usize, CollectError>(e) && final(store)@ == old(store)@,
            },
    {
        let raw = RawEvent::new(tag.to_owned(), date.to_owned(), release_url.to_owned());
        match normalize_raw_event(
            &raw,
            &self.version_pattern,
            self.project_name.as_str(),
            "",
            "",
            SourceKind::ReleaseApi,
        ) {
            Err(e) => Err(e),
            Ok(None) => Ok(0),
            Ok(Some(ev)) => {
                let inserted = store.insert_version_history(&ev);
                if inserted {
                    Ok(1)
                } else {
                    Ok(0)
                }
            },
        }
    }

    /// The canonical events one page of releases yields.
    pub fn extract_events(&self, releases: &Vec<RawEvent>) -> (r: Result<
        Vec<VersionHistory>,
        CollectError,
    >)
        ensures
            r matches Ok(evs) ==> releases_events_spec(
                opt_pattern_view(self.version_pattern),
                self.project_name@,
                raws_view(releases@),
            ) == Ok::<Seq<EventView>, CollectError>(rows_view(evs@)) && all_wf(rows_view(evs@)),
            r matches Err(e) ==> releases_events_spec(
                opt_pattern_view(self.version_pattern),
                self.project_name@,
                raws_view(releases@),
            ) == Err::<Seq<EventView>, CollectError>(e),
    {
        let ghost pv = opt_pattern_view(self.version_pattern);
        let ghost rv = raws_view(releases@);
        let m = releases.len();
        let mut out: Vec<VersionHistory> = Vec::new();
        let mut i: usize = 0;
        proof {
            assert(rv.take(0) =~= Seq::<crate::normalize::RawEventView>::empty());
            assert(rows_view(out@) =~= Seq::<EventView>::empty());
        }
        while i < m
            invariant
                i <= m,
                m == releases@.len(),
                rv == raws_view(releases@),
                pv == opt_pattern_view(self.version_pattern),
                releases_events_spec(pv, self.project_name@, rv.take(i as int)) == Ok::<
                    Seq<EventView>,
                    CollectError,
                >(rows_view(out@)),
                all_wf(rows_view(out@)),
            decreases m - i,
        {
            proof {
                assert(rv.take(i + 1).drop_last() =~= rv.take(i as int));
                assert(rv.take(i + 1).last() == rv[i as int]);
            }
            let ghost prev_view = rows_view(out@);
            match normalize_raw_event(
                &releases[i],
                &self.version_pattern,
                self.project_name.as_str(),
                "",
                "",
                SourceKind::ReleaseApi,
            ) {
                Err(e) => {
                    proof {
                        lemma_releases_err_propagates(pv, self.project_name@, rv, i + 1);
                    }
                    return Err(e);
                },
                Ok(None) => {},
                Ok(Some(ev)) => {
                    out.push(ev);
                    proof {
                        assert(rows_view(out@) =~= prev_view.push(out@[out@.len() - 1]@));
                        assert(forall|q: int|
                            0 <= q < prev_view.len() ==> rows_view(out@)[q] == prev_view[q]);
                    }
                },
            }
            i = i + 1;
        }
        proof {
            assert(rv.take(m as int) =~= rv);
        }
        Ok(out)
    }

    /// Run one release-API pass against the store: normalize the page's
    /// releases and insert each, idempotently; report how many rows were
    /// new. On a pass failure the store is left untouched.
    pub fn get_releases(&self, store: &mut HistoryStore, releases: &Vec<RawEvent>) -> (r: Result<
        usize,
        CollectError,
    >)
        requires
            old(store).inv(),
        ensures
            final(store).inv(),
            match releases_events_spec(
                opt_pattern_view(self.version_pattern),
                self.project_name@,
                raws_view(releases@),
            ) {
                Ok(evs) => {
                    &&& r is Ok
                    &&& (r matches Ok(n) ==> n == count_new(old(store)@, evs) && final(store)@
                        == append_all(old(store)@, evs))
                },
                Err(e) => r == Err::<usize, CollectError>(e) && final(store)@ == old(store)@,
            },
    {
        match self.extract_events(releases) {
            Ok(evs) => Ok(store.insert_all(&evs)),
            Err(e) => Err(e),
        }
    }
}

} // verus!
