//! The deduplicated version history store.
//!
//! The store holds at most one row per (project_name, channel, version)
//! triple, however many times a source re-emits the same event: insertion
//! is insert-if-absent, the system's sole dedup mechanism. Reads are the
//! full history ordered by occurrence time, and the latest row per
//! project under a caller-chosen ordering key.

use vstd::prelude::*;

use crate::event::{same_key, EventView, VersionHistory};
use crate::text::opt_str_view;

verus! {

/// The views of a sequence of rows.
pub open spec fn rows_view(v: Seq<VersionHistory>) -> Seq<EventView> {
    v.map_values(|e: VersionHistory| e@)
}

/// No two rows share a (project_name, channel, version) triple.
pub open spec fn dup_free(s: Seq<EventView>) -> bool {
    forall|i: int, j: int| 0 <= i < j < s.len() ==> !same_key(s[i], s[j])
}

/// Every row is well formed.
pub open spec fn all_wf(s: Seq<EventView>) -> bool {
    forall|i: int| 0 <= i < s.len() ==> s[i].wf()
}

/// Some row already carries `e`'s (project_name, channel, version) triple.
pub open spec fn contains_key(s: Seq<EventView>, e: EventView) -> bool {
    exists|i: int| 0 <= i < s.len() && same_key(s[i], e)
}

/// What one insert-if-absent call leaves behind.
pub open spec fn spec_append(s: Seq<EventView>, e: EventView) -> Seq<EventView> {
    if contains_key(s, e) {
        s
    } else {
        s.push(e)
    }
}

/// How many rows of `s` carry `e`'s triple.
pub open spec fn count_key(s: Seq<EventView>, e: EventView) -> int
    decreases s.len(),
{
    if s.len() == 0 {
        0
    } else {
        count_key(s.drop_last(), e) + if same_key(s.last(), e) {
            1int
        } else {
            0int
        }
    }
}

/// The deduplicated, append-only collection of version events.
pub struct HistoryStore {
    rows: Vec<VersionHistory>,
}

impl View for HistoryStore {
    type V = Seq<EventView>;

    closed spec fn view(&self) -> Seq<EventView> {
        rows_view(self.rows@)
    }
}

impl HistoryStore {
    /// The store's invariant: rows pairwise distinct by triple, each well
    /// formed. Established empty, preserved by every insertion.
    pub open spec fn inv(&self) -> bool {
        dup_free(self@) && all_wf(self@)
    }

    /// An empty store.
    pub fn new() -> (r: HistoryStore)
        ensures
            r@ == Seq::<EventView>::empty(),
            r.inv(),
    {
        let r = HistoryStore { rows: Vec::new() };
        proof {
            assert(r@ =~= Seq::<EventView>::empty());
        }
        r
    }

    /// How many rows the store holds.
    pub fn len(&self) -> (r: usize)
        ensures
            r == self@.len(),
    {
        self.rows.len()
    }

    /// Insert-if-absent: a row whose (project_name, channel, version)
    /// triple is already present leaves the store unchanged and reports
    /// "not inserted"; otherwise the row is appended and reported
    /// "inserted".
    pub fn insert_version_history(&mut self, input: &VersionHistory) -> (inserted: bool)
        requires
            old(self).inv(),
            input.wf(),
        ensures
            final(self).inv(),
            inserted == !contains_key(old(self)@, input@),
            final(self)@ == spec_append(old(self)@, input@),
            final(self)@.len() == old(self)@.len() + if inserted {
                1int
            } else {
                0int
            },
    {
        let n = self.rows.len();
        let mut i: usize = 0;
        while i < n
            invariant
                i <= n,
                n == self.rows@.len(),
                *self == *old(self),
                old(self).inv(),
                forall|j: int| 0 <= j < i ==> !same_key(self@[j], input@),
            decreases n - i,
        {
            if self.rows[i].has_same_key(input) {
                proof {
                    assert(same_key(self@[i as int], input@));
                }
                return false;
            }
            i = i + 1;
        }
        proof {
            assert(forall|j: int| 0 <= j < old(self)@.len() ==> !same_key(
                old(self)@[j],
                input@,
            ));
        }
        self.rows.push(input.duplicate());
        proof {
            assert(self@ =~= old(self)@.push(input@));
        }
        true
    }

    /// Insert each event in order, returning how many were new.
    pub fn insert_all(&mut self, evs: &Vec<VersionHistory>) -> (n: usize)
        requires
            old(self).inv(),
            all_wf(rows_view(evs@)),
        ensures
            final(self).inv(),
            final(self)@ == append_all(old(self)@, rows_view(evs@)),
            n == count_new(old(self)@, rows_view(evs@)),
    {
        let m = evs.len();
        let mut n: usize = 0;
        let mut i: usize = 0;
        proof {
            assert(rows_view(evs@).take(0) =~= Seq::<EventView>::empty());
        }
        while i < m
            invariant
                i <= m,
                n <= i,
                m == evs@.len(),
                old(self).inv(),
                all_wf(rows_view(evs@)),
                self.inv(),
                self@ == append_all(old(self)@, rows_view(evs@).take(i as int)),
                n == count_new(old(self)@, rows_view(evs@).take(i as int)),
            decreases m - i,
        {
            let ghost views = rows_view(evs@);
            proof {
                assert(views.take(i + 1).drop_last() =~= views.take(i as int));
                assert(views.take(i + 1).last() == views[i as int]);
                assert(views[i as int].wf());
            }
            let inserted = self.insert_version_history(&evs[i]);
            if inserted {
                n = n + 1;
            }
            i = i + 1;
        }
        proof {
            assert(rows_view(evs@).take(m as int) =~= rows_view(evs@));
        }
        n
    }

    /// Whether some row carries the given triple.
    pub fn have_version_history(
        &self,
        project_name: &str,
        channel: &str,
        version: &str,
    ) -> (r: bool)
        ensures
            r == exists|i: int|
                0 <= i < self@.len() && self@[i].project_name == project_name@ && self@[
                    i
                ].channel == channel@ && self@[i].version == version@,
    {
        let n = self.rows.len();
        let mut i: usize = 0;
        while i < n
            invariant
                i <= n,
                n == self.rows@.len(),
                forall|j: int|
                    0 <= j < i ==> !(self@[j].project_name == project_name@ && self@[j].channel
                        == channel@ && self@[j].version == version@),
            decreases n - i,
        {
            if self.rows[i].matches_triple(project_name, channel, version) {
                proof {
                    assert(self@[i as int].project_name == project_name@);
                }
                return true;
            }
            i = i + 1;
        }
        false
    }

    /// A copy of every row, in store (insertion) order.
    fn copy_rows(&self) -> (r: Vec<VersionHistory>)
        ensures
            rows_view(r@) == self@,
    {
        let n = self.rows.len();
        let mut out: Vec<VersionHistory> = Vec::new();
        let mut i: usize = 0;
        while i < n
            invariant
                i <= n,
                n == self.rows@.len(),
                rows_view(out@) =~= self@.subrange(0, i as int),
            decreases n - i,
        {
            let ghost prev_raw = out@;
            let ghost prev_view = rows_view(out@);
            let d = self.rows[i].duplicate();
            out.push(d);
            proof {
                assert(prev_view.len() == prev_raw.len());
                assert(prev_raw.len() == i);
                assert(out@ == prev_raw.push(d));
                assert forall|m: int| 0 <= m < i + 1 implies rows_view(out@)[m] == self@[m] by {
                    if m < i {
                        assert(out@[m] == prev_raw[m]);
                        assert(rows_view(out@)[m] == prev_view[m]);
                        assert(prev_view[m] == self@.subrange(0, i as int)[m]);
                    } else {
                        assert(out@[m] == d);
                        assert(d@ == self.rows@[i as int]@);
                    }
                }
                assert(rows_view(out@) =~= self@.subrange(0, i + 1));
            }
            i = i + 1;
        }
        proof {
            assert(rows_view(out@) =~= self@);
        }
        out
    }

    /// Whether row `i` is the one the latest-per-project listing keeps
    /// for its project.
    fn is_chosen_at(&self, i: usize) -> (r: bool)
        requires
            self.inv(),
            i < self@.len(),
        ensures
            r == chosen(self@, i as int),
    {
        let n = self.rows.len();
        proof {
            assert(self@[i as int].wf());
        }
        let key_i = self.rows[i].bump_date.key();
        let mut j: usize = 0;
        while j < n
            invariant
                j <= n,
                i < n,
                n == self.rows@.len(),
                self.inv(),
                key_i == self@[i as int].bump_date.spec_key(),
                forall|m: int|
                    0 <= m < j && m != i && self@[m].project_name == self@[
                        i as int
                    ].project_name ==> self@[m].bump_date.spec_key() < self@[
                        i as int
                    ].bump_date.spec_key() || (self@[m].bump_date.spec_key() == self@[
                        i as int
                    ].bump_date.spec_key() && i < m),
            decreases n - j,
        {
            if j != i {
                if self.rows[j].project_name == self.rows[i].project_name {
                    proof {
                        assert(self@[j as int].wf());
                    }
                    let key_j = self.rows[j].bump_date.key();
                    if !(key_j < key_i || (key_j == key_i && i < j)) {
                        proof {
                            assert(self@[j as int].project_name == self@[
                                i as int
                            ].project_name);
                            assert(!chosen(self@, i as int));
                        }
                        return false;
                    }
                }
            }
            j = j + 1;
        }
        true
    }

    /// One row per project — the one with the maximum occurrence time,
    /// earliest-inserted on ties — sorted by the requested key and
    /// direction. A key name other than `project_name`, `version` or
    /// `bump_date` (or no key at all) sorts by project name.
    pub fn get_latest_version_history(
        &self,
        order_by: Option<String>,
        is_order_by_desc: bool,
    ) -> (r: Vec<VersionHistory>)
        requires
            self.inv(),
        ensures
            rows_view(r@).to_multiset() == latest_rows(self@).to_multiset(),
            sorted_by(order_key_of_spec(opt_str_view(order_by)), is_order_by_desc, rows_view(r@)),
            r@.len() == latest_rows(self@).len(),
    {
        let k = order_key_of_name(&order_by);
        let n = self.rows.len();
        let mut out: Vec<VersionHistory> = Vec::new();
        let mut i: usize = 0;
        proof {
            assert(rows_view(out@) =~= latest_up_to(self@, 0));
        }
        while i < n
            invariant
                i <= n,
                n == self.rows@.len(),
                self.inv(),
                rows_view(out@) == latest_up_to(self@, i as int),
                all_wf(rows_view(out@)),
            decreases n - i,
        {
            let ghost prev_raw = out@;
            let ghost prev_view = rows_view(out@);
            if self.is_chosen_at(i) {
                let d = self.rows[i].duplicate();
                out.push(d);
                proof {
                    assert(prev_view.len() == prev_raw.len());
                    assert(out@ == prev_raw.push(d));
                    assert forall|m: int|
                        0 <= m < out@.len() implies rows_view(out@)[m] == latest_up_to(
                        self@,
                        i + 1,
                    )[m] by {
                        assert(latest_up_to(self@, i + 1) == latest_up_to(self@, i as int)
                            + seq![self@[i as int]]);
                        if m < prev_raw.len() {
                            assert(out@[m] == prev_raw[m]);
                            assert(rows_view(out@)[m] == prev_view[m]);
                        } else {
                            assert(out@[m] == d);
                            assert(d@ == self@[i as int]);
                        }
                    }
                    assert(rows_view(out@) =~= latest_up_to(self@, i + 1));
                    assert(all_wf(rows_view(out@))) by {
                        assert(self@[i as int].wf());
                        assert(forall|m: int|
                            0 <= m < prev_view.len() ==> rows_view(out@)[m] == prev_view[m]);
                    }
                }
            } else {
                proof {
                    assert(latest_up_to(self@, i + 1) == latest_up_to(self@, i as int)
                        + Seq::empty());
                    assert(latest_up_to(self@, i + 1) =~= latest_up_to(self@, i as int));
                }
            }
            i = i + 1;
        }
        proof {
            assert(rows_view(out@) == latest_rows(self@));
        }
        sort_rows(k, is_order_by_desc, &mut out);
        out
    }

    /// The full history, ordered by occurrence time, most recent first.
    pub fn get_version_history(&self) -> (r: Vec<VersionHistory>)
        requires
            self.inv(),
        ensures
            rows_view(r@).to_multiset() == self@.to_multiset(),
            sorted_by(OrderKey::BumpDate, true, rows_view(r@)),
            r@.len() == self@.len(),
    {
        let mut out = self.copy_rows();
        sort_rows(OrderKey::BumpDate, true, &mut out);
        out
    }
}

/// The ordering keys a listing may be sorted by. An unrecognized key
/// name falls back to the project name, never an error.
#[derive(Clone, Copy, PartialEq, Eq, Structural, Debug)]
pub enum OrderKey {
    ProjectName,
    Version,
    BumpDate,
}

/// Which ordering key a caller-supplied column name selects. Only
/// `version` and `bump_date` are recognized besides the default; any
/// other name (or none) falls back to the project name.
pub open spec fn order_key_of_spec(o: Option<Seq<char>>) -> OrderKey {
    match o {
        Some(name) => if name == "version"@ {
            OrderKey::Version
        } else if name == "bump_date"@ {
            OrderKey::BumpDate
        } else {
            OrderKey::ProjectName
        },
        None => OrderKey::ProjectName,
    }
}

/// Executable counterpart of `order_key_of_spec`.
pub fn order_key_of_name(o: &Option<String>) -> (k: OrderKey)
    ensures
        k == order_key_of_spec(opt_str_view(*o)),
{
    match o {
        Some(s) => {
            if crate::text::str_eq(s.as_str(), "version") {
                OrderKey::Version
            } else if crate::text::str_eq(s.as_str(), "bump_date") {
                OrderKey::BumpDate
            } else {
                OrderKey::ProjectName
            }
        },
        None => OrderKey::ProjectName,
    }
}

/// Whether `a`'s sort field comes no later than `b`'s under key `k`.
/// Text fields order lexicographically, timestamps chronologically.
pub open spec fn field_le(k: OrderKey, a: EventView, b: EventView) -> bool {
    match k {
        OrderKey::ProjectName => crate::text::lex_le(a.project_name, b.project_name),
        OrderKey::Version => crate::text::lex_le(a.version, b.version),
        OrderKey::BumpDate => a.bump_date.spec_key() <= b.bump_date.spec_key(),
    }
}

/// The requested row order: ascending by the key field, or descending.
pub open spec fn le_by(k: OrderKey, desc: bool, a: EventView, b: EventView) -> bool {
    if desc {
        field_le(k, b, a)
    } else {
        field_le(k, a, b)
    }
}

pub open spec fn sorted_by(k: OrderKey, desc: bool, s: Seq<EventView>) -> bool {
    forall|i: int, j: int| 0 <= i < j < s.len() ==> le_by(k, desc, s[i], s[j])
}

proof fn lemma_le_by_total(k: OrderKey, desc: bool, a: EventView, b: EventView)
    ensures
        le_by(k, desc, a, b) || le_by(k, desc, b, a),
{
    match k {
        OrderKey::ProjectName => crate::text::lemma_lex_le_total(a.project_name, b.project_name),
        OrderKey::Version => crate::text::lemma_lex_le_total(a.version, b.version),
        OrderKey::BumpDate => {},
    }
}

proof fn lemma_le_by_trans(k: OrderKey, desc: bool, a: EventView, b: EventView, c: EventView)
    requires
        le_by(k, desc, a, b),
        le_by(k, desc, b, c),
    ensures
        le_by(k, desc, a, c),
{
    match k {
        OrderKey::ProjectName => {
            if desc {
                crate::text::lemma_lex_le_trans(c.project_name, b.project_name, a.project_name);
            } else {
                crate::text::lemma_lex_le_trans(a.project_name, b.project_name, c.project_name);
            }
        },
        OrderKey::Version => {
            if desc {
                crate::text::lemma_lex_le_trans(c.version, b.version, a.version);
            } else {
                crate::text::lemma_lex_le_trans(a.version, b.version, c.version);
            }
        },
        OrderKey::BumpDate => {},
    }
}

/// Executable row comparison matching `le_by`.
fn row_le(k: OrderKey, desc: bool, a: &VersionHistory, b: &VersionHistory) -> (r: bool)
    requires
        a.wf(),
        b.wf(),
    ensures
        r == le_by(k, desc, a@, b@),
{
    let (x, y) = if desc {
        (b, a)
    } else {
        (a, b)
    };
    match k {
        OrderKey::ProjectName => crate::text::str_le(
            x.project_name.as_str(),
            y.project_name.as_str(),
        ),
        OrderKey::Version => crate::text::str_le(x.version.as_str(), y.version.as_str()),
        OrderKey::BumpDate => x.bump_date.key() <= y.bump_date.key(),
    }
}

/// Stable-order-agnostic insertion sort under `le_by(k, desc, _, _)`:
/// rearranges the rows into sorted order, keeping exactly the same
/// collection of rows.
fn sort_rows(k: OrderKey, desc: bool, rows: &mut Vec<VersionHistory>)
    requires
        all_wf(rows_view(old(rows)@)),
    ensures
        sorted_by(k, desc, rows_view(final(rows)@)),
        rows_view(final(rows)@).to_multiset() == rows_view(old(rows)@).to_multiset(),
        all_wf(rows_view(final(rows)@)),
        final(rows)@.len() == old(rows)@.len(),
{
    broadcast use vstd::seq_lib::group_to_multiset_ensures;
    broadcast use vstd::multiset::group_multiset_axioms;

    let n = rows.len();
    if n == 0 {
        return ;
    }
    let mut i: usize = 1;
    while i < n
        invariant
            1 <= i <= n,
            n == rows@.len(),
            n == old(rows)@.len(),
            sorted_by(k, desc, rows_view(rows@).subrange(0, i as int)),
            rows_view(rows@).to_multiset() == rows_view(old(rows)@).to_multiset(),
            all_wf(rows_view(rows@)),
        decreases n - i,
    {
        let ghost before = rows_view(rows@);
        let e = rows.remove(i);
        let ghost removed = rows_view(rows@);
        proof {
            assert(removed =~= before.remove(i as int));
            assert(removed.subrange(0, i as int) =~= before.subrange(0, i as int));
            assert(sorted_by(k, desc, removed.subrange(0, i as int)));
            assert(all_wf(removed)) by {
                assert(forall|m: int|
                    0 <= m < removed.len() ==> removed[m] == if m < i {
                        before[m]
                    } else {
                        before[m + 1]
                    });
            }
            assert(e.wf()) by {
                assert(before[i as int] == e@);
            }
        }
        let mut j: usize = i;
        while j > 0
            invariant_except_break
                j <= i,
                i < n,
                n == rows@.len() + 1,
                rows_view(rows@) == removed,
                all_wf(removed),
                e.wf(),
                sorted_by(k, desc, removed.subrange(0, i as int)),
                forall|m: int| j <= m < i ==> le_by(k, desc, e@, removed[m]),
            ensures
                j <= i,
                i < n,
                n == rows@.len() + 1,
                rows_view(rows@) == removed,
                forall|m: int| j <= m < i ==> le_by(k, desc, e@, removed[m]),
                forall|m: int| 0 <= m < j ==> le_by(k, desc, removed[m], e@),
            decreases j,
        {
            if row_le(k, desc, &rows[j - 1], &e) {
                proof {
                    assert forall|m: int| 0 <= m < j implies le_by(k, desc, removed[m], e@) by {
                        if m < j - 1 {
                            assert(le_by(
                                k,
                                desc,
                                removed.subrange(0, i as int)[m],
                                removed.subrange(0, i as int)[j - 1],
                            ));
                            lemma_le_by_trans(k, desc, removed[m], removed[j - 1], e@);
                        }
                    }
                }
                break ;
            }
            proof {
                lemma_le_by_total(k, desc, removed[j - 1], e@);
            }
            j = j - 1;
        }
        rows.insert(j, e);
        proof {
            broadcast use vstd::seq_lib::group_to_multiset_ensures;
            broadcast use vstd::multiset::group_multiset_axioms;

            let after = rows_view(rows@);
            assert(after =~= removed.insert(j as int, e@));
            assert(after.to_multiset() == rows_view(old(rows)@).to_multiset()) by {
                assert(before.len() == n as int);
                assert(e@ == before[i as int]);
                assert(before.remove(i as int).to_multiset() == before.to_multiset().remove(
                    before[i as int],
                ));
                assert(removed.insert(j as int, e@).to_multiset()
                    == removed.to_multiset().insert(e@));
                assert(before.contains(before[i as int]));
                assert(before.to_multiset().count(before[i as int]) > 0);
                assert(after.to_multiset() =~= before.to_multiset());
            }
            assert(all_wf(after)) by {
                assert(forall|m: int|
                    0 <= m < after.len() ==> after[m] == if m < j {
                        removed[m]
                    } else if m == j {
                        e@
                    } else {
                        removed[m - 1]
                    });
            }
            assert(sorted_by(k, desc, after.subrange(0, i + 1))) by {
                assert forall|p: int, q: int| 0 <= p < q < i + 1 implies le_by(
                    k,
                    desc,
                    after[p],
                    after[q],
                ) by {
                    if q < j {
                        assert(le_by(k, desc, removed[p], removed[q]));
                    } else if p < j && q == j {
                        assert(le_by(k, desc, removed[p], e@));
                    } else if p < j && q > j {
                        assert(le_by(k, desc, removed[p], removed[q - 1]));
                    } else if p == j && q > j {
                        assert(le_by(k, desc, e@, removed[q - 1]));
                    } else {
                        assert(le_by(k, desc, removed[p - 1], removed[q - 1]));
                    }
                }
            }
        }
        i = i + 1;
    }
    proof {
        assert(rows_view(rows@).subrange(0, n as int) =~= rows_view(rows@));
    }
}

/// The store contents after inserting each event in order.
pub open spec fn append_all(s0: Seq<EventView>, evs: Seq<EventView>) -> Seq<EventView>
    decreases evs.len(),
{
    if evs.len() == 0 {
        s0
    } else {
        spec_append(append_all(s0, evs.drop_last()), evs.last())
    }
}

/// How many of the events an in-order insertion actually inserts.
pub open spec fn count_new(s0: Seq<EventView>, evs: Seq<EventView>) -> int
    decreases evs.len(),
{
    if evs.len() == 0 {
        0
    } else {
        count_new(s0, evs.drop_last()) + if contains_key(
            append_all(s0, evs.drop_last()),
            evs.last(),
        ) {
            0int
        } else {
            1int
        }
    }
}

/// Row `i` is the row the latest-per-project listing keeps for its
/// project: every other row of the same project is either strictly
/// older, or of the same instant but inserted later (ties break to the
/// earliest-inserted row, a deterministic rule).
pub open spec fn chosen(s: Seq<EventView>, i: int) -> bool {
    &&& 0 <= i < s.len()
    &&& forall|j: int|
        0 <= j < s.len() && j != i && s[j].project_name == s[i].project_name
            ==> s[j].bump_date.spec_key() < s[i].bump_date.spec_key() || (
        s[j].bump_date.spec_key() == s[i].bump_date.spec_key() && i < j)
}

/// The chosen rows among the first `n`, in insertion order.
pub open spec fn latest_up_to(s: Seq<EventView>, n: int) -> Seq<EventView>
    decreases n,
{
    if n <= 0 {
        Seq::empty()
    } else {
        latest_up_to(s, n - 1) + if chosen(s, n - 1) {
            seq![s[n - 1]]
        } else {
            Seq::empty()
        }
    }
}

/// One row per project present in the store: for each, the row with the
/// maximum occurrence time, earliest-inserted on ties.
pub open spec fn latest_rows(s: Seq<EventView>) -> Seq<EventView> {
    latest_up_to(s, s.len() as int)
}

/// How many rows of `t` belong to project `p`.
pub open spec fn count_project(t: Seq<EventView>, p: Seq<char>) -> int
    decreases t.len(),
{
    if t.len() == 0 {
        0
    } else {
        count_project(t.drop_last(), p) + if t.last().project_name == p {
            1int
        } else {
            0int
        }
    }
}

/// Only one index can be chosen for a given project.
proof fn lemma_chosen_unique(s: Seq<EventView>, i: int, j: int)
    requires
        chosen(s, i),
        chosen(s, j),
        s[i].project_name == s[j].project_name,
    ensures
        i == j,
{
}

/// The best index for project `p` among the first `n` rows: maximum
/// timestamp key, earliest on ties; `-1` when no row of `p` is there.
spec fn pick(s: Seq<EventView>, p: Seq<char>, n: int) -> int
    decreases n,
{
    if n <= 0 {
        -1
    } else {
        let rest = pick(s, p, n - 1);
        if s[n - 1].project_name == p {
            if rest == -1 {
                n - 1
            } else if s[n - 1].bump_date.spec_key() > s[rest].bump_date.spec_key() {
                n - 1
            } else {
                rest
            }
        } else {
            rest
        }
    }
}

proof fn lemma_pick_props(s: Seq<EventView>, p: Seq<char>, n: int)
    requires
        0 <= n <= s.len(),
    ensures
        pick(s, p, n) == -1 <==> forall|i: int| 0 <= i < n ==> s[i].project_name != p,
        pick(s, p, n) != -1 ==> {
            let b = pick(s, p, n);
            &&& 0 <= b < n
            &&& s[b].project_name == p
            &&& forall|j: int|
                0 <= j < n && j != b && s[j].project_name == p
                    ==> s[j].bump_date.spec_key() < s[b].bump_date.spec_key() || (
                s[j].bump_date.spec_key() == s[b].bump_date.spec_key() && b < j)
        },
    decreases n,
{
    if n > 0 {
        lemma_pick_props(s, p, n - 1);
    }
}

/// Latest-selection law, existence half: when some row of project `p` is
/// in the store, some index of that project is chosen, and the chosen
/// row carries the project's maximum occurrence time.
pub proof fn lemma_latest_exists(s: Seq<EventView>, p: Seq<char>)
    requires
        exists|i: int| 0 <= i < s.len() && s[i].project_name == p,
    ensures
        exists|i: int| #[trigger] chosen(s, i) && s[i].project_name == p,
{
    lemma_pick_props(s, p, s.len() as int);
    let b = pick(s, p, s.len() as int);
    assert(chosen(s, b));
}

proof fn lemma_count_project_concat_one(t: Seq<EventView>, e: EventView, p: Seq<char>)
    ensures
        count_project(t + seq![e], p) == count_project(t, p) + if e.project_name == p {
            1int
        } else {
            0int
        },
{
    assert((t + seq![e]).drop_last() =~= t);
    assert((t + seq![e]).last() == e);
}

proof fn lemma_count_project_concat_empty(t: Seq<EventView>, p: Seq<char>)
    ensures
        count_project(t + Seq::empty(), p) == count_project(t, p),
{
    assert(t + Seq::<EventView>::empty() =~= t);
}

proof fn lemma_latest_up_to_count(s: Seq<EventView>, p: Seq<char>, n: int)
    requires
        0 <= n <= s.len(),
    ensures
        count_project(latest_up_to(s, n), p) == if exists|i: int|
            0 <= i < n && #[trigger] chosen(s, i) && s[i].project_name == p {
            1int
        } else {
            0int
        },
    decreases n,
{
    if n > 0 {
        lemma_latest_up_to_count(s, p, n - 1);
        let t = latest_up_to(s, n - 1);
        if chosen(s, n - 1) {
            lemma_count_project_concat_one(t, s[n - 1], p);
            if s[n - 1].project_name == p {
                assert forall|i: int|
                    0 <= i < n - 1 && #[trigger] chosen(s, i) implies s[i].project_name != p by {
                    if s[i].project_name == p {
                        lemma_chosen_unique(s, i, n - 1);
                    }
                }
                assert(chosen(s, n - 1) && s[n - 1].project_name == p);
            }
        } else {
            lemma_count_project_concat_empty(t, p);
        }
    }
}

proof fn lemma_latest_up_to_member_at(s: Seq<EventView>, n: int, k: int)
    requires
        0 <= n <= s.len(),
        0 <= k < latest_up_to(s, n).len(),
    ensures
        exists|i: int|
            0 <= i < n && #[trigger] chosen(s, i) && latest_up_to(s, n)[k] == s[i],
    decreases n,
{
    let t = latest_up_to(s, n - 1);
    if k < t.len() {
        lemma_latest_up_to_member_at(s, n - 1, k);
        let i = choose|i: int| 0 <= i < n - 1 && #[trigger] chosen(s, i) && t[k] == s[i];
        assert(latest_up_to(s, n)[k] == t[k]);
        assert(0 <= i < n && chosen(s, i) && latest_up_to(s, n)[k] == s[i]);
    } else {
        assert(chosen(s, n - 1));
        assert(latest_up_to(s, n)[k] == s[n - 1]);
        assert(0 <= n - 1 < n && chosen(s, n - 1) && latest_up_to(s, n)[k] == s[n - 1]);
    }
}

/// Latest-selection law: for every project present in the store the
/// listing keeps exactly one row, and that row is a store row of the
/// project carrying its maximum occurrence time.
pub proof fn lemma_latest_one_per_project(s: Seq<EventView>, p: Seq<char>)
    ensures
        count_project(latest_rows(s), p) == if exists|i: int|
            0 <= i < s.len() && s[i].project_name == p {
            1int
        } else {
            0int
        },
        forall|k: int|
            0 <= k < latest_rows(s).len() && latest_rows(s)[k].project_name == p ==> {
                &&& s.contains(latest_rows(s)[k])
                &&& forall|j: int|
                    0 <= j < s.len() && s[j].project_name == p
                        ==> s[j].bump_date.spec_key()
                        <= latest_rows(s)[k].bump_date.spec_key()
            },
{
    let n = s.len() as int;
    lemma_latest_up_to_count(s, p, n);
    if exists|i: int| 0 <= i < s.len() && s[i].project_name == p {
        lemma_latest_exists(s, p);
        let w = choose|i: int| #[trigger] chosen(s, i) && s[i].project_name == p;
        assert(0 <= w < n && chosen(s, w) && s[w].project_name == p);
    }
    assert forall|k: int|
        0 <= k < latest_rows(s).len() && latest_rows(s)[k].project_name == p implies {
        &&& s.contains(latest_rows(s)[k])
        &&& forall|j: int|
            0 <= j < s.len() && s[j].project_name == p ==> s[j].bump_date.spec_key()
                <= latest_rows(s)[k].bump_date.spec_key()
    } by {
        lemma_latest_up_to_member_at(s, n, k);
        let i = choose|i: int|
            0 <= i < n && #[trigger] chosen(s, i) && latest_up_to(s, n)[k] == s[i];
        assert(s[i] == latest_rows(s)[k]);
        assert(s.contains(s[i]));
        assert forall|j: int|
            0 <= j < s.len() && s[j].project_name == p implies s[j].bump_date.spec_key()
            <= latest_rows(s)[k].bump_date.spec_key() by {
            if j != i {
                assert(s[j].project_name == s[i].project_name);
            }
        }
    }
}

/// Idempotence law: one insert makes the triple present, and a second
/// insert of the same event changes nothing.
pub proof fn lemma_append_idempotent(s: Seq<EventView>, e: EventView)
    ensures
        contains_key(spec_append(s, e), e),
        spec_append(spec_append(s, e), e) == spec_append(s, e),
{
    if !contains_key(s, e) {
        assert(same_key(s.push(e)[s.len() as int], e));
    }
}

proof fn lemma_count_key_absent(s: Seq<EventView>, e: EventView)
    requires
        forall|i: int| 0 <= i < s.len() ==> !same_key(s[i], e),
    ensures
        count_key(s, e) == 0,
    decreases s.len(),
{
    if s.len() > 0 {
        assert(!same_key(s[s.len() - 1], e));
        lemma_count_key_absent(s.drop_last(), e);
    }
}

/// Uniqueness law at the store: whatever append sequence built it — the
/// invariant holds in the empty store and every insertion keeps it — at
/// most one row carries any given triple.
pub proof fn lemma_store_unique(s: &HistoryStore, e: EventView)
    requires
        s.inv(),
    ensures
        count_key(s@, e) <= 1,
{
    lemma_dup_free_count(s@, e);
}

/// Uniqueness law: in a store without duplicate triples — the state every
/// append sequence preserves — at most one row carries any given triple.
pub proof fn lemma_dup_free_count(s: Seq<EventView>, e: EventView)
    requires
        dup_free(s),
    ensures
        count_key(s, e) <= 1,
    decreases s.len(),
{
    if s.len() > 0 {
        let prefix = s.drop_last();
        assert(dup_free(prefix)) by {
            assert(forall|i: int, j: int|
                0 <= i < j < prefix.len() ==> prefix[i] == s[i] && prefix[j] == s[j]);
        }
        if same_key(s.last(), e) {
            assert forall|i: int| 0 <= i < prefix.len() implies !same_key(prefix[i], e) by {
                assert(!same_key(s[i], s[s.len() - 1]));
            }
            lemma_count_key_absent(prefix, e);
        } else {
            lemma_dup_free_count(prefix, e);
        }
    }
}

} // verus!
