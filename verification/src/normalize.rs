//! Normalization: from one raw (label, timestamp-text, origin-id) triple
//! to a canonical version event, or a rejection.
//!
//! A label that yields no version is not an error — the candidate is
//! simply not a version bump. A timestamp that fails its source's format
//! is an error: it signals format drift and is escalated, never silently
//! dropped.

use vstd::prelude::*;

use crate::event::{EventView, VersionHistory};
use crate::pattern::{extract_version, extract_version_spec, opt_pattern_view, VersionPattern};
use crate::timestamp::{parse_timestamp, parse_timestamp_spec, TimestampFormat};

verus! {

/// Why a collection pass failed.
#[derive(Clone, Copy, PartialEq, Eq, Structural, Debug)]
pub enum CollectError {
    /// The configured capture expression does not compile.
    InvalidPattern,
    /// A remote location the workspace path cannot be derived from.
    InvalidRemote,
    /// A timestamp text that does not match its source's format.
    InvalidTimestamp,
}

impl CollectError {
    /// A short description for reporting.
    pub fn message(&self) -> (r: &'static str)
        ensures
            r@ == match *self {
                CollectError::InvalidPattern => "invalid version pattern"@,
                CollectError::InvalidRemote => "invalid remote url"@,
                CollectError::InvalidTimestamp => "invalid timestamp"@,
            },
    {
        match self {
            CollectError::InvalidPattern => "invalid version pattern",
            CollectError::InvalidRemote => "invalid remote url",
            CollectError::InvalidTimestamp => "invalid timestamp",
        }
    }
}

/// One raw event from a source: a candidate label, the source-reported
/// timestamp text, and the origin's identity (a commit hash, or a
/// canonical release URL). Ephemeral — produced and consumed within one
/// collection pass, never persisted.
pub struct RawEvent {
    pub label: String,
    pub timestamp_text: String,
    pub identity: String,
}

/// The mathematical value of a raw event.
#[verifier::ext_equal]
pub struct RawEventView {
    pub label: Seq<char>,
    pub timestamp_text: Seq<char>,
    pub identity: Seq<char>,
}

impl View for RawEvent {
    type V = RawEventView;

    open spec fn view(&self) -> RawEventView {
        RawEventView {
            label: self.label@,
            timestamp_text: self.timestamp_text@,
            identity: self.identity@,
        }
    }
}

impl RawEvent {
    /// Build a raw event from its parts.
    pub fn new(label: String, timestamp_text: String, identity: String) -> (r: RawEvent)
        ensures
            r@.label == label@,
            r@.timestamp_text == timestamp_text@,
            r@.identity == identity@,
    {
        RawEvent { label, timestamp_text, identity }
    }
}

/// The views of a sequence of raw events.
pub open spec fn raws_view(v: Seq<RawEvent>) -> Seq<RawEventView> {
    v.map_values(|r: RawEvent| r@)
}

/// Which kind of source a raw event came from; it decides the timestamp
/// format and how the event's URL is derived.
#[derive(Clone, Copy, PartialEq, Eq, Structural, Debug)]
pub enum SourceKind {
    /// A local repository clone's tag history.
    Repository,
    /// The release-hosting API.
    ReleaseApi,
}

pub open spec fn format_of_spec(k: SourceKind) -> TimestampFormat {
    match k {
        SourceKind::Repository => TimestampFormat::Repository,
        SourceKind::ReleaseApi => TimestampFormat::ReleaseApi,
    }
}

pub fn format_of(k: SourceKind) -> (r: TimestampFormat)
    ensures
        r == format_of_spec(k),
{
    match k {
        SourceKind::Repository => TimestampFormat::Repository,
        SourceKind::ReleaseApi => TimestampFormat::ReleaseApi,
    }
}

/// The URL recorded for a repository-sourced event: the project's
/// canonical URL with the release-tag path for the extracted version.
pub open spec fn repo_url_spec(project_url: Seq<char>, version: Seq<char>) -> Seq<char> {
    project_url + "/releases/tag/"@ + version
}

/// What normalizing one raw triple yields: nothing when the label gives
/// no version; an error when the timestamp text fails its format; else
/// the canonical event. A repository event's URL is derived from the
/// project URL and the version; a release event keeps its identity (the
/// canonical release URL).
pub open spec fn normalize_spec(
    pattern: Option<Seq<char>>,
    raw: RawEventView,
    project_name: Seq<char>,
    channel: Seq<char>,
    project_url: Seq<char>,
    kind: SourceKind,
) -> Result<Option<EventView>, CollectError> {
    match extract_version_spec(pattern, raw.label) {
        None => Ok(None),
        Some(version) => match parse_timestamp_spec(format_of_spec(kind), raw.timestamp_text) {
            None => Err(CollectError::InvalidTimestamp),
            Some(ts) => Ok(
                Some(
                    EventView {
                        project_name: project_name,
                        channel: channel,
                        version: version,
                        bump_date: ts,
                        url: Some(
                            match kind {
                                SourceKind::Repository => repo_url_spec(project_url, version),
                                SourceKind::ReleaseApi => raw.identity,
                            },
                        ),
                    },
                ),
            ),
        },
    }
}

/// The view of a normalization result.
pub open spec fn normalize_result_view(r: Result<Option<VersionHistory>, CollectError>) -> Result<
    Option<EventView>,
    CollectError,
> {
    match r {
        Ok(Some(v)) => Ok(Some(v@)),
        Ok(None) => Ok(None),
        Err(e) => Err(e),
    }
}

/// Combine one raw triple, the project's optional pattern and identity
/// into a canonical event, reject the candidate, or fail on a timestamp
/// that does not match the source's format.
pub fn normalize_raw_event(
    raw: &RawEvent,
    pattern: &Option<VersionPattern>,
    project_name: &str,
    channel: &str,
    project_url: &str,
    kind: SourceKind,
) -> (r: Result<Option<VersionHistory>, CollectError>)
    ensures
        normalize_result_view(r) == normalize_spec(
            opt_pattern_view(*pattern),
            raw@,
            project_name@,
            channel@,
            project_url@,
            kind,
        ),
        r matches Ok(Some(v)) ==> v.wf(),
{
    let version = extract_version(pattern, raw.label.as_str());
    match version {
        None => Ok(None),
        Some(v) => {
            match parse_timestamp(format_of(kind), raw.timestamp_text.as_str()) {
                None => Err(CollectError::InvalidTimestamp),
                Some(ts) => {
                    let url = match kind {
                        SourceKind::Repository => {
                            let mut u = project_url.to_owned();
                            u.append("/releases/tag/");
                            u.append(v.as_str());
                            u
                        },
                        SourceKind::ReleaseApi => raw.identity.clone(),
                    };
                    let ev = VersionHistory::new(
                        project_name,
                        channel,
                        v.as_str(),
                        ts,
                        Some(url),
                    );
                    Ok(Some(ev))
                },
            }
        },
    }
}

} // verus!
