//! The version event record: one discovered (project, channel, version,
//! time) tuple, the unit that the history store holds.

use vstd::prelude::*;

use crate::timestamp::Timestamp;

verus! {

/// The mathematical value of a `VersionHistory` row.
#[verifier::ext_equal]
pub struct EventView {
    pub project_name: Seq<char>,
    pub channel: Seq<char>,
    pub version: Seq<char>,
    pub bump_date: Timestamp,
    pub url: Option<Seq<char>>,
}

impl EventView {
    /// A row is well formed when its version is non-empty (empty
    /// candidates are discarded before they reach the store) and its
    /// timestamp names a real calendar instant.
    pub open spec fn wf(self) -> bool {
        self.version.len() > 0 && self.bump_date.wf()
    }
}

/// Two rows name the same store entry when their (project_name, channel,
/// version) triples agree; the store never holds two such rows.
pub open spec fn same_key(a: EventView, b: EventView) -> bool {
    a.project_name == b.project_name && a.channel == b.channel && a.version == b.version
}

/// One recorded version-bump event.
pub struct VersionHistory {
    pub project_name: String,
    pub channel: String,
    pub version: String,
    pub bump_date: Timestamp,
    pub url: Option<String>,
}

impl View for VersionHistory {
    type V = EventView;

    open spec fn view(&self) -> EventView {
        EventView {
            project_name: self.project_name@,
            channel: self.channel@,
            version: self.version@,
            bump_date: self.bump_date,
            url: match self.url {
                Some(u) => Some(u@),
                None => None,
            },
        }
    }
}

impl VersionHistory {
    pub open spec fn wf(&self) -> bool {
        self@.wf()
    }

    /// Build an event from its parts.
    pub fn new(
        project_name: &str,
        channel: &str,
        version: &str,
        bump_date: Timestamp,
        url: Option<String>,
    ) -> (r: VersionHistory)
        ensures
            r@ == (EventView {
                project_name: project_name@,
                channel: channel@,
                version: version@,
                bump_date: bump_date,
                url: match url {
                    Some(u) => Some(u@),
                    None => None,
                },
            }),
    {
        VersionHistory {
            project_name: project_name.to_owned(),
            channel: channel.to_owned(),
            version: version.to_owned(),
            bump_date,
            url,
        }
    }

    /// A field-for-field copy with the same view.
    pub fn duplicate(&self) -> (r: VersionHistory)
        ensures
            r@ == self@,
    {
        VersionHistory {
            project_name: self.project_name.clone(),
            channel: self.channel.clone(),
            version: self.version.clone(),
            bump_date: self.bump_date,
            url: match &self.url {
                Some(u) => Some(u.clone()),
                None => None,
            },
        }
    }

    /// Whether this row and `other` name the same store entry.
    pub fn has_same_key(&self, other: &VersionHistory) -> (r: bool)
        ensures
            r == same_key(self@, other@),
    {
        self.project_name == other.project_name && self.channel == other.channel && self.version
            == other.version
    }

    /// Whether this row carries the given (project, channel, version) triple.
    pub fn matches_triple(&self, project_name: &str, channel: &str, version: &str) -> (r: bool)
        ensures
            r == (self@.project_name == project_name@ && self@.channel == channel@
                && self@.version == version@),
    {
        crate::text::str_eq(self.project_name.as_str(), project_name) && crate::text::str_eq(
            self.channel.as_str(),
            channel,
        ) && crate::text::str_eq(self.version.as_str(), version)
    }
}

} // verus!
