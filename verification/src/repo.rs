//! The repository-log source: workspace-path derivation from a remote
//! location, and raw-event extraction from decorated log lines.
//!
//! The log is consumed as lines shaped `<decorations> <subject>\t<date>\t<hash>`
//! (author date formatted `YYYY/MM/DD hh:mm:ss`). Each decoration
//! `tag: <name>` yields one candidate label; commits without tag
//! decorations yield nothing.

use vstd::prelude::*;

use vstd::string::StrSliceExecFns;

use crate::event::{EventView, VersionHistory};
use crate::normalize::{
    normalize_raw_event, normalize_spec, CollectError, RawEvent, RawEventView, SourceKind,
};
use crate::pattern::{opt_pattern_view, VersionPattern};
use crate::store::{append_all, count_new, rows_view, all_wf, HistoryStore};
use crate::text;

verus! {

/// The first position at or after `from` where `c` stands, or the
/// sequence's length when there is none.
pub open spec fn find_from(s: Seq<char>, c: char, from: int) -> int
    decreases s.len() - from,
{
    if !(0 <= from < s.len()) {
        s.len() as int
    } else if s[from] == c {
        from
    } else {
        find_from(s, c, from + 1)
    }
}

/// Executable `find_from` over a character vector.
pub fn find_char(v: &Vec<char>, c: char, from: usize) -> (r: usize)
    requires
        from <= v@.len(),
    ensures
        r == find_from(v@, c, from as int),
        from <= r <= v@.len(),
    decreases v@.len() - from,
{
    let n = v.len();
    if from >= n {
        return n;
    }
    if v[from] == c {
        from
    } else {
        find_char(v, c, from + 1)
    }
}

/// Split a log line at its two tab separators: the decorated head, the
/// date text, and the commit hash. A line with any other number of tab
/// fields is not a log record and yields nothing.
pub open spec fn split3_spec(s: Seq<char>) -> Option<(Seq<char>, Seq<char>, Seq<char>)> {
    let i = find_from(s, '\t', 0);
    let j = find_from(s, '\t', i + 1);
    if i < s.len() && j < s.len() && find_from(s, '\t', j + 1) == s.len() {
        Some((s.subrange(0, i), s.subrange(i + 1, j), s.subrange(j + 1, s.len() as int)))
    } else {
        None
    }
}

/// Executable `split3_spec` on a string slice.
pub fn split_log_line(line: &str) -> (r: Option<(String, String, String)>)
    ensures
        r is Some <==> split3_spec(line@) is Some,
        r matches Some(p) ==> split3_spec(line@) == Some((p.0@, p.1@, p.2@)),
{
    let v = text::chars_of(line);
    let n = v.len();
    let i = find_char(&v, '\t', 0);
    if i >= n {
        return None;
    }
    let j = find_char(&v, '\t', i + 1);
    if j >= n {
        return None;
    }
    let k = find_char(&v, '\t', j + 1);
    if k < n {
        return None;
    }
    let head = line.substring_char(0, i).to_owned();
    let date = line.substring_char(i + 1, j).to_owned();
    let hash = line.substring_char(j + 1, n).to_owned();
    Some((head, date, hash))
}

/// A position where a `tag: ` decoration begins: at the head's start or
/// right after a `, ` separator.
pub open spec fn is_tag_start(s: Seq<char>, i: int) -> bool {
    &&& 0 <= i
    &&& i + 5 <= s.len()
    &&& (i == 0 || (i >= 2 && s[i - 2] == ',' && s[i - 1] == ' '))
    &&& s[i] == 't'
    &&& s[i + 1] == 'a'
    &&& s[i + 2] == 'g'
    &&& s[i + 3] == ':'
    &&& s[i + 4] == ' '
}

/// A tag name runs to the next `,` or space (tag names hold neither) or
/// to the end of the head.
pub open spec fn is_stop(c: char) -> bool {
    c == ',' || c == ' '
}

/// The first stop character at or after `from`, or the length.
pub open spec fn stop_from(s: Seq<char>, from: int) -> int
    decreases s.len() - from,
{
    if !(0 <= from < s.len()) {
        s.len() as int
    } else if is_stop(s[from]) {
        from
    } else {
        stop_from(s, from + 1)
    }
}

fn stop_char(v: &Vec<char>, from: usize) -> (r: usize)
    requires
        from <= v@.len(),
    ensures
        r == stop_from(v@, from as int),
        from <= r <= v@.len(),
    decreases v@.len() - from,
{
    let n = v.len();
    if from >= n {
        return n;
    }
    if v[from] == ',' || v[from] == ' ' {
        from
    } else {
        stop_char(v, from + 1)
    }
}

/// The tag names the decorations at or after position `i` carry, in
/// order of appearance; empty names yield nothing.
pub open spec fn tags_from(s: Seq<char>, i: int) -> Seq<Seq<char>>
    decreases s.len() - i,
{
    if i >= s.len() {
        Seq::empty()
    } else {
        (if is_tag_start(s, i) {
            let e = stop_from(s, i + 5);
            if e > i + 5 {
                seq![s.subrange(i + 5, e)]
            } else {
                Seq::empty()
            }
        } else {
            Seq::empty()
        }) + tags_from(s, i + 1)
    }
}

/// All tag names in a decorated head.
pub open spec fn tag_labels_spec(s: Seq<char>) -> Seq<Seq<char>> {
    tags_from(s, 0)
}

/// Extract every `tag: <name>` decoration's name from a decorated head.
pub fn extract_tag_labels(head: &str) -> (r: Vec<String>)
    ensures
        text::strings_view(r@) == tag_labels_spec(head@),
{
    let v = text::chars_of(head);
    let n = v.len();
    let mut out: Vec<String> = Vec::new();
    let mut i: usize = 0;
    proof {
        assert(text::strings_view(out@) =~= Seq::<Seq<char>>::empty());
        assert(tags_from(head@, 0) =~= Seq::<Seq<char>>::empty() + tags_from(head@, 0));
    }
    while i < n
        invariant
            i <= n,
            n == v@.len(),
            v@ == head@,
            tag_labels_spec(head@) == text::strings_view(out@) + tags_from(head@, i as int),
        decreases n - i,
    {
        let ghost prev = text::strings_view(out@);
        let boundary = i == 0 || (i >= 2 && v[i - 2] == ',' && v[i - 1] == ' ');
        let mut pushed = false;
        if boundary && n - i >= 5 && v[i] == 't' && v[i + 1] == 'a' && v[i + 2] == 'g' && v[i
            + 3] == ':' && v[i + 4] == ' ' {
            let e = stop_char(&v, i + 5);
            if e > i + 5 {
                let name = head.substring_char(i + 5, e).to_owned();
                out.push(name);
                pushed = true;
                proof {
                    assert(is_tag_start(head@, i as int));
                    assert(text::strings_view(out@) =~= prev.push(head@.subrange(i + 5, e as int)));
                }
            }
        }
        proof {
            if pushed {
                assert(tags_from(head@, i as int) =~= seq![head@.subrange(
                    i + 5,
                    stop_from(head@, i + 5),
                )] + tags_from(head@, i + 1));
                assert(text::strings_view(out@) + tags_from(head@, i + 1) =~= prev + tags_from(
                    head@,
                    i as int,
                ));
            } else {
                assert(!(is_tag_start(head@, i as int) && stop_from(head@, i + 5) > i + 5));
                assert(tags_from(head@, i as int) =~= tags_from(head@, i + 1));
            }
        }
        i = i + 1;
    }
    proof {
        assert(tags_from(head@, n as int) =~= Seq::<Seq<char>>::empty());
        assert(text::strings_view(out@) + Seq::<Seq<char>>::empty() =~= text::strings_view(
            out@,
        ));
    }
    out
}

pub open spec fn has_prefix(s: Seq<char>, p: Seq<char>) -> bool {
    p.len() <= s.len() && s.subrange(0, p.len() as int) == p
}

pub open spec fn has_suffix(s: Seq<char>, p: Seq<char>) -> bool {
    p.len() <= s.len() && s.subrange(s.len() - p.len(), s.len() as int) == p
}

/// Map the remote's path separators to directory separators: a `:`
/// (as in an scp-like remote) becomes `/`.
pub open spec fn map_sep(s: Seq<char>) -> Seq<char> {
    s.map_values(
        |c: char|
            if c == ':' {
                '/'
            } else {
                c
            },
    )
}

/// Strip the remote scheme (`https://` or `git@`) and the trailing
/// `.git` suffix; any other shape is not a usable remote.
pub open spec fn strip_remote_spec(u: Seq<char>) -> Option<Seq<char>> {
    if has_prefix(u, "https://"@) && has_suffix(u, ".git"@) && u.len() >= "https://"@.len()
        + ".git"@.len() {
        Some(u.subrange("https://"@.len() as int, u.len() - ".git"@.len()))
    } else if has_prefix(u, "git@"@) && has_suffix(u, ".git"@) && u.len() >= "git@"@.len()
        + ".git"@.len() {
        Some(u.subrange("git@"@.len() as int, u.len() - ".git"@.len()))
    } else {
        None
    }
}

/// The deterministic workspace path for a remote, under the root.
pub open spec fn workspace_dir_spec(rootdir: Seq<char>, clone_url: Seq<char>) -> Option<
    Seq<char>,
> {
    match strip_remote_spec(clone_url) {
        Some(mid) => Some(rootdir + "/"@ + map_sep(mid)),
        None => None,
    }
}

fn map_sep_exec(s: &str) -> (r: String)
    ensures
        r@ == map_sep(s@),
{
    let n = s.unicode_len();
    let mut r = String::new();
    let mut i: usize = 0;
    proof {
        assert(r@ =~= map_sep(s@.take(0)));
    }
    while i < n
        invariant
            i <= n,
            n == s@.len(),
            r@ == map_sep(s@.take(i as int)),
        decreases n - i,
    {
        let c = s.get_char(i);
        if c == ':' {
            text::push_char(&mut r, '/');
        } else {
            text::push_char(&mut r, c);
        }
        proof {
            assert(r@ =~= map_sep(s@.take(i + 1)));
        }
        i = i + 1;
    }
    proof {
        assert(s@.take(n as int) =~= s@);
    }
    r
}

/// Derive the local workspace directory for a remote location under the
/// workspace root, or nothing when the remote's shape is unusable.
pub fn derive_workspace_dir(rootdir: &str, clone_url: &str) -> (r: Option<String>)
    ensures
        text::opt_str_view(r) == workspace_dir_spec(rootdir@, clone_url@),
{
    proof {
        reveal_strlit("https://");
        reveal_strlit("git@");
        reveal_strlit(".git");
        reveal_strlit("/");
    }
    let n = clone_url.unicode_len();
    let plen: usize = if n >= 8 && text::str_eq(clone_url.substring_char(0, 8), "https://") {
        8
    } else if n >= 4 && text::str_eq(clone_url.substring_char(0, 4), "git@") {
        4
    } else {
        proof {
            assert(!has_prefix(clone_url@, "https://"@));
            assert(!has_prefix(clone_url@, "git@"@));
        }
        return None;
    };
    if n - plen < 4 || !text::str_eq(clone_url.substring_char(n - 4, n), ".git") {
        proof {
            if n - plen >= 4 {
                assert(!has_suffix(clone_url@, ".git"@));
            } else if plen == 8 {
                assert(clone_url@.subrange(0, 8)[0] == clone_url@[0]);
                assert(!has_prefix(clone_url@, "git@"@)) by {
                    if has_prefix(clone_url@, "git@"@) {
                        assert(clone_url@.subrange(0, 4)[0] == clone_url@[0]);
                    }
                }
            }
        }
        return None;
    }
    let mid = clone_url.substring_char(plen, n - 4);
    let mapped = map_sep_exec(mid);
    let mut dir = rootdir.to_owned();
    dir.append("/");
    dir.append(mapped.as_str());
    Some(dir)
}

/// The repository-log collector for one configured project: its
/// identity, remote and branch, the derived workspace directory, and
/// the compiled version pattern.
pub struct GitCollector {
    pub project_name: String,
    pub clone_url: String,
    pub url: String,
    pub branch: String,
    pub directory: String,
    pub version_pattern: Option<VersionPattern>,
}

/// The events one decorated head's labels yield, oldest-position first:
/// each label is normalized; a rejected label contributes nothing; a bad
/// timestamp fails the whole pass.
pub open spec fn labels_events_spec(
    p: Option<Seq<char>>,
    name: Seq<char>,
    branch: Seq<char>,
    url: Seq<char>,
    date: Seq<char>,
    hash: Seq<char>,
    labels: Seq<Seq<char>>,
) -> Result<Seq<EventView>, CollectError>
    decreases labels.len(),
{
    if labels.len() == 0 {
        Ok(Seq::empty())
    } else {
        match labels_events_spec(p, name, branch, url, date, hash, labels.drop_last()) {
            Err(e) => Err(e),
            Ok(evs) => match normalize_spec(
                p,
                RawEventView { label: labels.last(), timestamp_text: date, identity: hash },
                name,
                branch,
                url,
                SourceKind::Repository,
            ) {
                Err(e) => Err(e),
                Ok(None) => Ok(evs),
                Ok(Some(ev)) => Ok(evs.push(ev)),
            },
        }
    }
}

/// The events one log line yields: a line that is not a three-field log
/// record yields nothing (skipped, the stream goes on).
pub open spec fn line_events_spec(
    p: Option<Seq<char>>,
    name: Seq<char>,
    branch: Seq<char>,
    url: Seq<char>,
    line: Seq<char>,
) -> Result<Seq<EventView>, CollectError> {
    match split3_spec(line) {
        None => Ok(Seq::empty()),
        Some(parts) => labels_events_spec(
            p,
            name,
            branch,
            url,
            parts.1,
            parts.2,
            tag_labels_spec(parts.0),
        ),
    }
}

/// The events a whole log yields, line by line.
pub open spec fn lines_events_spec(
    p: Option<Seq<char>>,
    name: Seq<char>,
    branch: Seq<char>,
    url: Seq<char>,
    lines: Seq<Seq<char>>,
) -> Result<Seq<EventView>, CollectError>
    decreases lines.len(),
{
    if lines.len() == 0 {
        Ok(Seq::empty())
    } else {
        match lines_events_spec(p, name, branch, url, lines.drop_last()) {
            Err(e) => Err(e),
            Ok(evs) => match line_events_spec(p, name, branch, url, lines.last()) {
                Err(e) => Err(e),
                Ok(more) => Ok(evs + more),
            },
        }
    }
}

proof fn lemma_labels_err_propagates(
    p: Option<Seq<char>>,
    name: Seq<char>,
    branch: Seq<char>,
    url: Seq<char>,
    date: Seq<char>,
    hash: Seq<char>,
    labels: Seq<Seq<char>>,
    k: int,
)
    requires
        0 <= k <= labels.len(),
        labels_events_spec(p, name, branch, url, date, hash, labels.take(k)) is Err,
    ensures
        labels_events_spec(p, name, branch, url, date, hash, labels) == labels_events_spec(
            p,
            name,
            branch,
            url,
            date,
            hash,
            labels.take(k),
        ),
    decreases labels.len() - k,
{
    if k < labels.len() {
        assert(labels.take(k + 1).drop_last() =~= labels.take(k));
        lemma_labels_err_propagates(p, name, branch, url, date, hash, labels, k + 1);
    } else {
        assert(labels.take(k) =~= labels);
    }
}

proof fn lemma_lines_err_propagates(
    p: Option<Seq<char>>,
    name: Seq<char>,
    branch: Seq<char>,
    url: Seq<char>,
    lines: Seq<Seq<char>>,
    k: int,
)
    requires
        0 <= k <= lines.len(),
        lines_events_spec(p, name, branch, url, lines.take(k)) is Err,
    ensures
        lines_events_spec(p, name, branch, url, lines) == lines_events_spec(
            p,
            name,
            branch,
            url,
            lines.take(k),
        ),
    decreases lines.len() - k,
{
    if k < lines.len() {
        assert(lines.take(k + 1).drop_last() =~= lines.take(k));
        lemma_lines_err_propagates(p, name, branch, url, lines, k + 1);
    } else {
        assert(lines.take(k) =~= lines);
    }
}

impl GitCollector {
    /// Build the collector for one project: derive the workspace
    /// directory from the remote, compile the optional version pattern.
    /// A remote whose workspace path cannot be derived, or a pattern
    /// that does not compile, is fatal to this project's repository
    /// source only.
    pub fn new(
        rootdir: &str,
        clone_url: &str,
        project_name: &str,
        url: &str,
        branch: &str,
        version_regex: &Option<String>,
    ) -> (r: Result<GitCollector, CollectError>)
        ensures
            workspace_dir_spec(rootdir@, clone_url@) is None ==> r == Err::<
                GitCollector,
                CollectError,
            >(CollectError::InvalidRemote),
            workspace_dir_spec(rootdir@, clone_url@) is Some ==> match *version_regex {
                Some(rx) => {
                    &&& crate::pattern::regex_pattern_valid(rx@) ==> (r matches Ok(c)
                        && c.project_name@ == project_name@ && c.clone_url@ == clone_url@
                        && c.url@ == url@ && c.branch@ == branch@ && Some(c.directory@)
                        == workspace_dir_spec(rootdir@, clone_url@) && opt_pattern_view(
                        c.version_pattern,
                    ) == Some(rx@))
                    &&& !crate::pattern::regex_pattern_valid(rx@) ==> r == Err::<
                        GitCollector,
                        CollectError,
                    >(CollectError::InvalidPattern)
                },
                None => r matches Ok(c) && c.project_name@ == project_name@ && c.clone_url@
                    == clone_url@ && c.url@ == url@ && c.branch@ == branch@ && Some(
                    c.directory@,
                ) == workspace_dir_spec(rootdir@, clone_url@) && c.version_pattern is None,
            },
    {
        let directory = match derive_workspace_dir(rootdir, clone_url) {
            Some(d) => d,
            None => {
                return Err(CollectError::InvalidRemote);
            },
        };
        let version_pattern = match version_regex {
            Some(rx) => {
                match VersionPattern::new(rx.as_str()) {
                    Some(p) => Some(p),
                    None => {
                        return Err(CollectError::InvalidPattern);
                    },
                }
            },
            None => None,
        };
        Ok(
            GitCollector {
                project_name: project_name.to_owned(),
                clone_url: clone_url.to_owned(),
                url: url.to_owned(),
                branch: branch.to_owned(),
                directory,
                version_pattern,
            },
        )
    }

    /// The events one log line yields under this collector's pattern
    /// and identity.
    fn line_events(&self, line: &str) -> (r: Result<Vec<VersionHistory>, CollectError>)
        ensures
            r matches Ok(evs) ==> line_events_spec(
                opt_pattern_view(self.version_pattern),
                self.project_name@,
                self.branch@,
                self.url@,
                line@,
            ) == Ok::<Seq<EventView>, CollectError>(rows_view(evs@)) && all_wf(rows_view(evs@)),
            r matches Err(e) ==> line_events_spec(
                opt_pattern_view(self.version_pattern),
                self.project_name@,
                self.branch@,
                self.url@,
                line@,
            ) == Err::<Seq<EventView>, CollectError>(e),
    {
        let parts = match split_log_line(line) {
            None => {
                let empty: Vec<VersionHistory> = Vec::new();
                proof {
                    assert(rows_view(empty@) =~= Seq::<EventView>::empty());
                }
                return Ok(empty);
            },
            Some(p) => p,
        };
        let (head, date, hash) = parts;
        let labels = extract_tag_labels(head.as_str());
        let ghost pv = opt_pattern_view(self.version_pattern);
        let ghost lv = text::strings_view(labels@);
        let m = labels.len();
        let mut out: Vec<VersionHistory> = Vec::new();
        let mut i: usize = 0;
        proof {
            assert(lv.take(0) =~= Seq::<Seq<char>>::empty());
            assert(rows_view(out@) =~= Seq::<EventView>::empty());
        }
        while i < m
            invariant
                i <= m,
                m == labels@.len(),
                lv == text::strings_view(labels@),
                pv == opt_pattern_view(self.version_pattern),
                line_events_spec(pv, self.project_name@, self.branch@, self.url@, line@)
                    == labels_events_spec(
                    pv,
                    self.project_name@,
                    self.branch@,
                    self.url@,
                    date@,
                    hash@,
                    lv,
                ),
                labels_events_spec(pv, self.project_name@, self.branch@, self.url@, date@, hash@, lv.take(i as int))
                    == Ok::<Seq<EventView>, CollectError>(rows_view(out@)),
                all_wf(rows_view(out@)),
            decreases m - i,
        {
            let raw = RawEvent::new(labels[i].clone(), date.clone(), hash.clone());
            proof {
                assert(lv.take(i + 1).drop_last() =~= lv.take(i as int));
                assert(lv.take(i + 1).last() == lv[i as int]);
                assert(raw@ == (RawEventView {
                    label: lv[i as int],
                    timestamp_text: date@,
                    identity: hash@,
                }));
            }
            let ghost prev_view = rows_view(out@);
            match normalize_raw_event(
                &raw,
                &self.version_pattern,
                self.project_name.as_str(),
                self.branch.as_str(),
                self.url.as_str(),
                SourceKind::Repository,
            ) {
                Err(e) => {
                    proof {
                        lemma_labels_err_propagates(
                            pv,
                            self.project_name@,
                            self.branch@,
                            self.url@,
                            date@,
                            hash@,
                            lv,
                            i + 1,
                        );
                    }
                    return Err(e);
                },
                Ok(None) => {},
                Ok(Some(ev)) => {
                    out.push(ev);
                    proof {
                        assert(rows_view(out@) =~= prev_view.push(out@[out@.len() - 1]@));
                        assert(forall|q: int|
                            0 <= q < prev_view.len() ==> rows_view(out@)[q] == prev_view[q]);
                    }
                },
            }
            i = i + 1;
        }
        proof {
            assert(lv.take(m as int) =~= lv);
        }
        Ok(out)
    }

    /// The canonical events a whole log yields under this collector:
    /// unparseable lines are skipped, rejected labels contribute
    /// nothing, and one bad timestamp fails the pass with nothing
    /// extracted.
    pub fn extract_events(&self, lines: &Vec<String>) -> (r: Result<
        Vec<VersionHistory>,
        CollectError,
    >)
        ensures
            r matches Ok(evs) ==> lines_events_spec(
                opt_pattern_view(self.version_pattern),
                self.project_name@,
                self.branch@,
                self.url@,
                text::strings_view(lines@),
            ) == Ok::<Seq<EventView>, CollectError>(rows_view(evs@)) && all_wf(rows_view(evs@)),
            r matches Err(e) ==> lines_events_spec(
                opt_pattern_view(self.version_pattern),
                self.project_name@,
                self.branch@,
                self.url@,
                text::strings_view(lines@),
            ) == Err::<Seq<EventView>, CollectError>(e),
    {
        let ghost pv = opt_pattern_view(self.version_pattern);
        let ghost sv = text::strings_view(lines@);
        let m = lines.len();
        let mut out: Vec<VersionHistory> = Vec::new();
        let mut i: usize = 0;
        proof {
            assert(sv.take(0) =~= Seq::<Seq<char>>::empty());
            assert(rows_view(out@) =~= Seq::<EventView>::empty());
        }
        while i < m
            invariant
                i <= m,
                m == lines@.len(),
                sv == text::strings_view(lines@),
                pv == opt_pattern_view(self.version_pattern),
                lines_events_spec(pv, self.project_name@, self.branch@, self.url@, sv.take(i as int))
                    == Ok::<Seq<EventView>, CollectError>(rows_view(out@)),
                all_wf(rows_view(out@)),
            decreases m - i,
        {
            proof {
                assert(sv.take(i + 1).drop_last() =~= sv.take(i as int));
                assert(sv.take(i + 1).last() == sv[i as int]);
            }
            let ghost prev_view = rows_view(out@);
            match self.line_events(lines[i].as_str()) {
                Err(e) => {
                    proof {
                        lemma_lines_err_propagates(
                            pv,
                            self.project_name@,
                            self.branch@,
                            self.url@,
                            sv,
                            i + 1,
                        );
                    }
                    return Err(e);
                },
                Ok(mut part) => {
                    let ghost part_view = rows_view(part@);
                    out.append(&mut part);
                    proof {
                        assert(rows_view(out@) =~= prev_view + part_view);
                    }
                },
            }
            i = i + 1;
        }
        proof {
            assert(sv.take(m as int) =~= sv);
        }
        Ok(out)
    }

    /// Run one repository pass against the store: extract this log's
    /// events and insert each, idempotently; report how many rows were
    /// new. On a pass failure the store is left untouched.
    pub fn collect(&self, store: &mut HistoryStore, lines: &Vec<String>) -> (r: Result<
        usize,
        CollectError,
    >)
        requires
            old(store).inv(),
        ensures
            final(store).inv(),
            match lines_events_spec(
                opt_pattern_view(self.version_pattern),
                self.project_name@,
                self.branch@,
                self.url@,
                text::strings_view(lines@),
            ) {
                Ok(evs) => {
                    &&& r is Ok
                    &&& (r matches Ok(n) ==> n == count_new(old(store)@, evs) && final(store)@
                        == append_all(old(store)@, evs))
                },
                Err(e) => r == Err::<usize, CollectError>(e) && final(store)@ == old(store)@,
            },
    {
        match self.extract_events(lines) {
            Ok(evs) => Ok(store.insert_all(&evs)),
            Err(e) => Err(e),
        }
    }
}

} // verus!
