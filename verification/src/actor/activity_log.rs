//! Append-only insight/activity ledger with per-row seen-state.
//!
//! Every noteworthy background result becomes a row that survives restarts
//! and carries a `seen_at` time, absent until the user actually views it. The
//! unseen-insight badge, the activity history view, and the detail summary all
//! read from here.
//!
//! The rows live in this module as plain values. Whoever stores them takes
//! them up with [`ActivityLog::open`], with the largest id that was ever used
//! up, and writes back what an operation changed.
use vstd::prelude::*;
use vstd::string::*;

use crate::actor::ActorError;
use crate::actor::ActorResult;
use crate::clock;
use crate::clock::Timestamp;
use crate::text;
use crate::text::cap_text;
use crate::text::collapse;
use crate::text::same_text;

verus! {

/// What a ledger row records.
#[derive(Clone, Copy, Debug, PartialEq, Eq, Structural)]
pub enum ActivityKind {
    /// A user-facing noteworthy finding from background reflection.
    Insight,
    /// A completed background task record.
    Activity,
}

/// The name under which a kind is stored.
pub open spec fn kind_text(kind: ActivityKind) -> Seq<char> {
    match kind {
        ActivityKind::Insight => "insight"@,
        ActivityKind::Activity => "activity"@,
    }
}

/// The two kinds are stored under different names.
pub proof fn lemma_kind_text_injective(a: ActivityKind, b: ActivityKind)
    ensures
        kind_text(a) == kind_text(b) <==> a == b,
{
    reveal_strlit("insight");
    reveal_strlit("activity");
    assert("insight"@.len() != "activity"@.len());
}

impl ActivityKind {
    /// The name under which the kind is stored.
    pub fn as_str(self) -> (r: &'static str)
        ensures
            r@ == kind_text(self),
    {
        match self {
            ActivityKind::Insight => "insight",
            ActivityKind::Activity => "activity",
        }
    }

    /// The kind that is stored under this name, if there is one.
    pub fn parse(value: &str) -> (r: Option<ActivityKind>)
        ensures
            forall|k: ActivityKind| r == Some(k) <==> #[trigger] kind_text(k) == value@,
    {
        proof {
            lemma_kind_text_injective(ActivityKind::Insight, ActivityKind::Activity);
        }
        if same_text(value, "insight") {
            Some(ActivityKind::Insight)
        } else if same_text(value, "activity") {
            Some(ActivityKind::Activity)
        } else {
            None
        }
    }
}

/// A ledger entry to append. `event_id` deduplicates retries: appends with
/// an already-recorded event id are silently ignored.
#[derive(Debug)]
pub struct NewActivity {
    pub kind: ActivityKind,
    pub actor_id: Option<String>,
    pub event_id: Option<String>,
    pub title: String,
    pub summary: String,
    pub detail: Option<String>,
    pub category: Option<String>,
    pub urgency: Option<String>,
    pub source_name: String,
    pub produced_at: Timestamp,
}

/// What a [`NewActivity`] holds.
pub struct NewActivityView {
    pub kind: ActivityKind,
    pub actor_id: Option<Seq<char>>,
    pub event_id: Option<Seq<char>>,
    pub title: Seq<char>,
    pub summary: Seq<char>,
    pub detail: Option<Seq<char>>,
    pub category: Option<Seq<char>>,
    pub urgency: Option<Seq<char>>,
    pub source_name: Seq<char>,
    pub produced_at: (i64, u32),
}

impl View for NewActivity {
    type V = NewActivityView;

    open spec fn view(&self) -> NewActivityView {
        NewActivityView {
            kind: self.kind,
            actor_id: text::opt_view(self.actor_id),
            event_id: text::opt_view(self.event_id),
            title: self.title@,
            summary: self.summary@,
            detail: text::opt_view(self.detail),
            category: text::opt_view(self.category),
            urgency: text::opt_view(self.urgency),
            source_name: self.source_name@,
            produced_at: self.produced_at@,
        }
    }
}

impl Clone for NewActivity {
    fn clone(&self) -> (r: NewActivity)
        ensures
            r@ == self@,
    {
        NewActivity {
            kind: self.kind,
            actor_id: self.actor_id.clone(),
            event_id: self.event_id.clone(),
            title: self.title.clone(),
            summary: self.summary.clone(),
            detail: self.detail.clone(),
            category: self.category.clone(),
            urgency: self.urgency.clone(),
            source_name: self.source_name.clone(),
            produced_at: self.produced_at,
        }
    }
}

/// One row of the ledger, as readers see it.
#[derive(Debug, PartialEq)]
pub struct ActivityRow {
    pub id: i64,
    pub kind: String,
    pub actor_id: Option<String>,
    pub title: String,
    pub summary: String,
    pub detail: Option<String>,
    pub category: Option<String>,
    pub urgency: Option<String>,
    pub source_name: String,
    pub produced_at: String,
    pub seen_at: Option<String>,
}

/// What an [`ActivityRow`] holds.
pub struct ActivityRowView {
    pub id: i64,
    pub kind: Seq<char>,
    pub actor_id: Option<Seq<char>>,
    pub title: Seq<char>,
    pub summary: Seq<char>,
    pub detail: Option<Seq<char>>,
    pub category: Option<Seq<char>>,
    pub urgency: Option<Seq<char>>,
    pub source_name: Seq<char>,
    pub produced_at: Seq<char>,
    pub seen_at: Option<Seq<char>>,
}

impl View for ActivityRow {
    type V = ActivityRowView;

    open spec fn view(&self) -> ActivityRowView {
        ActivityRowView {
            id: self.id,
            kind: self.kind@,
            actor_id: text::opt_view(self.actor_id),
            title: self.title@,
            summary: self.summary@,
            detail: text::opt_view(self.detail),
            category: text::opt_view(self.category),
            urgency: text::opt_view(self.urgency),
            source_name: self.source_name@,
            produced_at: self.produced_at@,
            seen_at: text::opt_view(self.seen_at),
        }
    }
}

impl Clone for ActivityRow {
    fn clone(&self) -> (r: ActivityRow)
        ensures
            r@ == self@,
    {
        ActivityRow {
            id: self.id,
            kind: self.kind.clone(),
            actor_id: self.actor_id.clone(),
            title: self.title.clone(),
            summary: self.summary.clone(),
            detail: self.detail.clone(),
            category: self.category.clone(),
            urgency: self.urgency.clone(),
            source_name: self.source_name.clone(),
            produced_at: self.produced_at.clone(),
            seen_at: self.seen_at.clone(),
        }
    }
}

/// A row as it is stored: what readers see, and the event id that guards
/// against recording the same event twice.
#[derive(Debug, PartialEq)]
pub struct LedgerRow {
    pub row: ActivityRow,
    pub event_id: Option<String>,
}

/// What a [`LedgerRow`] holds.
pub struct LedgerRowView {
    pub row: ActivityRowView,
    pub event_id: Option<Seq<char>>,
}

impl View for LedgerRow {
    type V = LedgerRowView;

    open spec fn view(&self) -> LedgerRowView {
        LedgerRowView { row: self.row@, event_id: text::opt_view(self.event_id) }
    }
}

impl Clone for LedgerRow {
    fn clone(&self) -> (r: LedgerRow)
        ensures
            r@ == self@,
    {
        LedgerRow { row: self.row.clone(), event_id: self.event_id.clone() }
    }
}

/// What a ledger holds: where it is stored, its rows in the order of their
/// ids, and the largest id that was ever used up.
pub struct LedgerView {
    pub path: Seq<char>,
    pub rows: Seq<LedgerRowView>,
    pub sequence: i64,
}

/// Whether the rows can be a ledger: ids rise from row to row, and no event id
/// occurs twice.
pub open spec fn well_formed(rows: Seq<LedgerRowView>) -> bool {
    &&& forall|i: int, j: int|
        0 <= i < j < rows.len() ==> (#[trigger] rows[i]).row.id < (#[trigger] rows[j]).row.id
    &&& forall|i: int, j: int|
        0 <= i < j < rows.len() && (#[trigger] rows[i]).event_id is Some ==> rows[i].event_id != (
        #[trigger] rows[j]).event_id
}

/// Whether an entry with this event id is already in the ledger. Entries
/// without an event id never are.
pub open spec fn recorded(rows: Seq<LedgerRowView>, event_id: Option<Seq<char>>) -> bool {
    event_id is Some && exists|i: int| 0 <= i < rows.len() && (#[trigger] rows[i]).event_id == event_id
}

/// The id that the next append uses up: one more than the last row's, or 1
/// without rows, and past every id that was used up before.
pub open spec fn next_id(ledger: LedgerView) -> int {
    let after_rows = if ledger.rows.len() == 0 {
        1
    } else {
        ledger.rows.last().row.id + 1
    };
    if after_rows > ledger.sequence {
        after_rows
    } else {
        ledger.sequence + 1
    }
}

/// The row that an entry becomes: unseen, with its time in RFC 3339 notation.
pub open spec fn row_of(entry: NewActivityView, id: i64) -> LedgerRowView {
    LedgerRowView {
        row: ActivityRowView {
            id,
            kind: kind_text(entry.kind),
            actor_id: entry.actor_id,
            title: entry.title,
            summary: entry.summary,
            detail: entry.detail,
            category: entry.category,
            urgency: entry.urgency,
            source_name: entry.source_name,
            produced_at: clock::rfc3339_text(entry.produced_at.0, entry.produced_at.1)->0,
            seen_at: None,
        },
        event_id: entry.event_id,
    }
}

/// The ledger after an append: a new last row, unless its event was recorded
/// before. Either way an id is used up.
pub open spec fn appended(ledger: LedgerView, entry: NewActivityView) -> LedgerView {
    let id = next_id(ledger) as i64;
    LedgerView {
        rows: if recorded(ledger.rows, entry.event_id) {
            ledger.rows
        } else {
            ledger.rows.push(row_of(entry, id))
        },
        sequence: id,
        ..ledger
    }
}

/// How many rows satisfy `test`.
pub open spec fn count_rows(
    rows: Seq<LedgerRowView>,
    test: spec_fn(LedgerRowView) -> bool,
) -> nat
    decreases rows.len(),
{
    if rows.len() == 0 {
        0
    } else {
        count_rows(rows.drop_last(), test) + if test(rows.last()) {
            1nat
        } else {
            0nat
        }
    }
}

/// A count as it is reported: the number itself, as far as it can be written.
pub open spec fn reported(n: nat) -> i64 {
    if n <= i64::MAX {
        n as i64
    } else {
        i64::MAX
    }
}

/// The rows the user never opened, restricted to `kind` when given.
pub open spec fn unseen(kind: Option<ActivityKind>) -> spec_fn(LedgerRowView) -> bool {
    |r: LedgerRowView|
        r.row.seen_at is None && (kind matches Some(k) ==> r.row.kind == kind_text(k))
}

/// The rows the user never opened whose id is among `ids`.
pub open spec fn unseen_among(ids: Seq<i64>) -> spec_fn(LedgerRowView) -> bool {
    |r: LedgerRowView| r.row.seen_at is None && ids.contains(r.row.id)
}

/// The ledger after the rows that satisfy `test` were seen at `now`.
pub open spec fn seen_where(
    rows: Seq<LedgerRowView>,
    test: spec_fn(LedgerRowView) -> bool,
    now: Seq<char>,
) -> Seq<LedgerRowView> {
    Seq::new(
        rows.len(),
        |i: int|
            if test(rows[i]) {
                LedgerRowView {
                    row: ActivityRowView { seen_at: Some(now), ..rows[i].row },
                    ..rows[i]
                }
            } else {
                rows[i]
            },
    )
}

/// The rows with ids below `before`, newest first.
pub open spec fn newest_first(rows: Seq<LedgerRowView>, before: i64) -> Seq<ActivityRowView>
    decreases rows.len(),
{
    if rows.len() == 0 {
        Seq::empty()
    } else if rows.last().row.id < before {
        seq![rows.last().row] + newest_first(rows.drop_last(), before)
    } else {
        newest_first(rows.drop_last(), before)
    }
}

/// The most rows that a page holds.
pub const MAX_PAGE_ROWS: usize = 500;

/// The number of rows that a page may hold, for a wish of `limit` rows.
pub open spec fn page_size(limit: nat) -> nat {
    if limit < 1 {
        1
    } else if limit > MAX_PAGE_ROWS {
        MAX_PAGE_ROWS as nat
    } else {
        limit
    }
}

/// One page of history: the newest rows with ids below `before_id`.
pub open spec fn page(
    rows: Seq<LedgerRowView>,
    limit: nat,
    before_id: Option<i64>,
) -> Seq<ActivityRowView> {
    let all = newest_first(
        rows,
        match before_id {
            Some(id) => id,
            None => i64::MAX,
        },
    );
    if all.len() <= page_size(limit) {
        all
    } else {
        all.take(page_size(limit) as int)
    }
}

/// The row with this id, if there is one.
pub open spec fn row_with_id(rows: Seq<LedgerRowView>, id: i64) -> Option<ActivityRowView> {
    if exists|i: int| 0 <= i < rows.len() && (#[trigger] rows[i]).row.id == id {
        Some(rows[choose|i: int| 0 <= i < rows.len() && (#[trigger] rows[i]).row.id == id].row)
    } else {
        None
    }
}

/// The ledger.
#[derive(Debug)]
pub struct ActivityLog {
    db_path: String,
    rows: Vec<LedgerRow>,
    sequence: i64,
}

impl View for ActivityLog {
    type V = LedgerView;

    closed spec fn view(&self) -> LedgerView {
        LedgerView {
            path: self.db_path@,
            rows: text::views(self.rows@),
            sequence: self.sequence,
        }
    }
}

impl Clone for ActivityLog {
    /// The ledger as it stands; what either of the two takes up later stays its
    /// own.
    fn clone(&self) -> (r: ActivityLog)
        ensures
            r@ == self@,
    {
        proof {
            use_type_invariant(self);
        }
        let rows = self.rows.clone();
        assert(text::views(rows@) =~= text::views(self.rows@));
        ActivityLog { db_path: self.db_path.clone(), rows, sequence: self.sequence }
    }
}

impl ActivityLog {
    #[verifier::type_invariant]
    closed spec fn is_ledger(self) -> bool {
        well_formed(text::views(self.rows@))
    }

    /// Takes up the rows that are stored at `db_path`, and the largest id that
    /// was ever used up there, 0 at first. Fails when the rows cannot be a
    /// ledger.
    pub fn open(db_path: String, stored: Vec<LedgerRow>, sequence: i64) -> (r: ActorResult<
        ActivityLog,
    >)
        ensures
            r is Ok <==> well_formed(text::views(stored@)),
            r matches Ok(log) ==> log@ == (LedgerView {
                path: db_path@,
                rows: text::views(stored@),
                sequence,
            }),
            r matches Err(e) ==> (e matches ActorError::Runtime(m) && m@
                == "activity log: stored rows are out of order"@),
    {
        let mut i: usize = 0;
        while i < stored.len()
            invariant
                i <= stored.len(),
                well_formed(text::views(stored@).take(i as int)),
            decreases stored.len() - i,
        {
            let ghost rows = text::views(stored@);
            let ghost before = rows.take(i as int);
            let bad_id = i > 0 && stored[i].row.id <= stored[i - 1].row.id;
            let bad = bad_id || Self::holds_event(&stored, i, &stored[i].event_id);
            if bad {
                proof {
                    assert(rows[i as int] == stored@[i as int]@);
                    if i > 0 {
                        assert(rows[i - 1] == stored@[i - 1]@);
                    }
                    if well_formed(rows) {
                        if recorded(before, rows[i as int].event_id) {
                            let k = choose|k: int|
                                0 <= k < before.len() && (#[trigger] before[k]).event_id
                                    == rows[i as int].event_id;
                            assert(rows[k].event_id == rows[i as int].event_id);
                        }
                    }
                }
                return Err(
                    ActorError::Runtime("activity log: stored rows are out of order".to_owned()),
                );
            }
            proof {
                let after = rows.take(i + 1);
                assert(after =~= before.push(rows[i as int]));
                assert forall|a: int, b: int| 0 <= a < b < after.len() implies (#[trigger]
                after[a]).row.id < (#[trigger] after[b]).row.id by {
                    if b == i {
                        assert(rows[i - 1] == stored@[i - 1]@);
                        assert(after[a] == before[a]);
                        if a < i - 1 {
                            assert(before[a].row.id < before[i - 1].row.id);
                        }
                    } else {
                        assert(before[a].row.id < before[b].row.id);
                    }
                }
                assert forall|a: int, b: int|
                    0 <= a < b < after.len() && (#[trigger] after[a]).event_id is Some implies
                    after[a].event_id != (#[trigger] after[b]).event_id by {
                    if b == i {
                        assert(after[a] == before[a]);
                    } else {
                        assert(after[a] == before[a] && after[b] == before[b]);
                    }
                }
            }
            i = i + 1;
        }
        assert(text::views(stored@).take(stored.len() as int) =~= text::views(stored@));
        Ok(ActivityLog { db_path, rows: stored, sequence })
    }

    fn holds_event(rows: &Vec<LedgerRow>, upto: usize, event_id: &Option<String>) -> (r: bool)
        requires
            upto <= rows.len(),
        ensures
            r == recorded(text::views(rows@).take(upto as int), text::opt_view(*event_id)),
    {
        let ghost all = text::views(rows@).take(upto as int);
        match event_id {
            None => false,
            Some(wanted) => {
                let mut i: usize = 0;
                while i < upto
                    invariant
                        i <= upto <= rows.len(),
                        text::opt_view(*event_id) == Some(wanted@),
                        all == text::views(rows@).take(upto as int),
                        forall|k: int|
                            0 <= k < i ==> (#[trigger] all[k]).event_id != Some(wanted@),
                    decreases upto - i,
                {
                    assert(all[i as int] == rows@[i as int]@);
                    match &rows[i].event_id {
                        Some(known) => {
                            if *known == *wanted {
                                return true;
                            }
                        },
                        None => {},
                    }
                    i = i + 1;
                }
                false
            },
        }
    }

    /// Where the ledger is stored.
    pub fn db_path(&self) -> (r: &str)
        ensures
            r@ == self@.path,
    {
        self.db_path.as_str()
    }

    /// The rows, in the order of their ids.
    pub fn rows(&self) -> (r: &Vec<LedgerRow>)
        ensures
            text::views(r@) == self@.rows,
            well_formed(self@.rows),
    {
        proof {
            use_type_invariant(self);
        }
        &self.rows
    }

    /// The largest id that was ever used up.
    pub fn sequence(&self) -> (r: i64)
        ensures
            r == self@.sequence,
    {
        self.sequence
    }

    /// The rows and the largest id that was ever used up, to be stored.
    pub fn into_parts(self) -> (r: (Vec<LedgerRow>, i64))
        ensures
            text::views(r.0@) == self@.rows,
            r.1 == self@.sequence,
            well_formed(self@.rows),
    {
        proof {
            use_type_invariant(&self);
        }
        (self.rows, self.sequence)
    }

    /// Appends one entry. Returns the new row id, or `None` when the entry's
    /// `event_id` was already recorded (retry dedup). Fails when there is no
    /// id left to give.
    pub fn append(&mut self, entry: &NewActivity) -> (r: ActorResult<Option<i64>>)
        ensures
            well_formed(final(self)@.rows),
            r is Err <==> next_id(old(self)@) > i64::MAX,
            r matches Err(e) ==> (e matches ActorError::Runtime(m) && m@
                == "activity log: database or disk is full"@),
            r matches Ok(id) ==> (id is None <==> recorded(old(self)@.rows, entry@.event_id)),
            r matches Ok(Some(id)) ==> id == next_id(old(self)@),
            final(self)@ == if r is Ok {
                appended(old(self)@, entry@)
            } else {
                old(self)@
            },
    {
        proof {
            use_type_invariant(&*self);
        }
        let n: usize = self.rows.len();
        let mut last: i64 = self.sequence;
        if n > 0 {
            assert(self@.rows.last() == self.rows@.last()@);
            if self.rows[n - 1].row.id > last {
                last = self.rows[n - 1].row.id;
            }
        } else if last < 0 {
            last = 0;
        }
        assert(last + 1 == next_id(self@));
        if last == i64::MAX {
            return Err(ActorError::Runtime("activity log: database or disk is full".to_owned()));
        }
        let id: i64 = last + 1;
        assert(self@.rows.take(n as int) =~= self@.rows);
        if Self::holds_event(&self.rows, n, &entry.event_id) {
            self.sequence = id;
            return Ok(None);
        }
        let row = LedgerRow {
            row: ActivityRow {
                id,
                kind: entry.kind.as_str().to_owned(),
                actor_id: entry.actor_id.clone(),
                title: entry.title.clone(),
                summary: entry.summary.clone(),
                detail: entry.detail.clone(),
                category: entry.category.clone(),
                urgency: entry.urgency.clone(),
                source_name: entry.source_name.clone(),
                produced_at: entry.produced_at.to_rfc3339(),
                seen_at: None,
            },
            event_id: entry.event_id.clone(),
        };
        assert(row@ == row_of(entry@, id));
        let mut rows: Vec<LedgerRow> = Vec::new();
        std::mem::swap(&mut rows, &mut self.rows);
        rows.push(row);
        proof {
            text::lemma_views_push(old(self).rows@, row);
            lemma_append_well_formed(old(self)@, entry@);
        }
        self.rows = rows;
        self.sequence = id;
        Ok(Some(id))
    }

    /// Rows never opened by the user, restricted to `kind` when given.
    pub fn unseen_count(&self, kind: Option<ActivityKind>) -> (r: i64)
        ensures
            r == reported(count_rows(self@.rows, unseen(kind))),
    {
        let mut total: i64 = 0;
        let mut i: usize = 0;
        let ghost rows = self@.rows;
        assert(rows.take(0) =~= Seq::empty());
        while i < self.rows.len()
            invariant
                i <= self.rows.len(),
                rows == self@.rows,
                total == reported(count_rows(rows.take(i as int), unseen(kind))),
            decreases self.rows.len() - i,
        {
            assert(rows.take(i + 1).drop_last() =~= rows.take(i as int));
            assert(rows[i as int] == self.rows@[i as int]@);
            if self.rows[i].row.is_unseen(kind) && total < i64::MAX {
                total = total + 1;
            }
            i = i + 1;
        }
        assert(rows.take(self.rows.len() as int) =~= rows);
        total
    }

    /// Newest-first page of history. `before_id` pages past the previous
    /// page's last row id (rows are append-only, so id order is stable).
    pub fn list(&self, limit: usize, before_id: Option<i64>) -> (r: Vec<ActivityRow>)
        ensures
            text::views(r@) == page(self@.rows, limit as nat, before_id),
    {
        let size: usize = if limit < 1 {
            1
        } else if limit > MAX_PAGE_ROWS {
            MAX_PAGE_ROWS
        } else {
            limit
        };
        let before: i64 = match before_id {
            Some(id) => id,
            None => i64::MAX,
        };
        let ghost rows = self@.rows;
        let ghost all = newest_first(rows, before);
        let mut out: Vec<ActivityRow> = Vec::new();
        let mut i: usize = self.rows.len();
        assert(rows.take(i as int) =~= rows);
        assert(text::views(out@) + all =~= all);
        while i > 0 && out.len() < size
            invariant
                i <= self.rows.len(),
                rows == self@.rows,
                out.len() <= size,
                text::views(out@) + newest_first(rows.take(i as int), before) == all,
            decreases i,
        {
            i = i - 1;
            assert(rows.take(i + 1).drop_last() =~= rows.take(i as int));
            assert(rows[i as int] == self.rows@[i as int]@);
            if self.rows[i].row.id < before {
                let ghost held = text::views(out@);
                let row = self.rows[i].row.clone();
                out.push(row);
                proof {
                    let rest = newest_first(rows.take(i as int), before);
                    assert(text::views(out@) =~= held.push(rows[i as int].row));
                    assert(held.push(rows[i as int].row) + rest =~= held + (seq![
                        rows[i as int].row,
                    ] + rest));
                }
            }
        }
        proof {
            let rest = newest_first(rows.take(i as int), before);
            if i == 0 {
                assert(rest =~= Seq::empty());
                assert(text::views(out@) =~= all);
            } else {
                assert(all.take(size as int) =~= text::views(out@));
                assert(all.len() <= size ==> all =~= text::views(out@));
            }
        }
        out
    }

    /// The row with this id, if there is one.
    pub fn get(&self, id: i64) -> (r: Option<ActivityRow>)
        ensures
            text::opt_view(r) == row_with_id(self@.rows, id),
    {
        proof {
            use_type_invariant(self);
        }
        let ghost rows = self@.rows;
        let mut i: usize = 0;
        while i < self.rows.len()
            invariant
                i <= self.rows.len(),
                rows == self@.rows,
                well_formed(rows),
                forall|k: int| 0 <= k < i ==> (#[trigger] rows[k]).row.id != id,
            decreases self.rows.len() - i,
        {
            assert(rows[i as int] == self.rows@[i as int]@);
            if self.rows[i].row.id == id {
                proof {
                    lemma_row_with_id(rows, i as int);
                }
                return Some(self.rows[i].row.clone());
            }
            i = i + 1;
        }
        None
    }

    /// Marks specific rows as seen at `now`. Already-seen rows keep their
    /// original `seen_at` ("seen" means the first time the user viewed it).
    /// Returns how many rows went from unseen to seen.
    pub fn mark_seen_at(&mut self, ids: &[i64], now: &str) -> (r: usize)
        ensures
            r == count_rows(old(self)@.rows, unseen_among(ids@)),
            final(self)@ == (LedgerView {
                rows: seen_where(old(self)@.rows, unseen_among(ids@), now@),
                ..old(self)@
            }),
            well_formed(final(self)@.rows),
    {
        proof {
            use_type_invariant(&*self);
        }
        let ghost rows = self@.rows;
        let ghost test = unseen_among(ids@);
        let mut stored: Vec<LedgerRow> = Vec::new();
        std::mem::swap(&mut stored, &mut self.rows);
        let mut changed: usize = 0;
        let mut i: usize = 0;
        assert(rows.take(0) =~= Seq::empty());
        while i < stored.len()
            invariant
                i <= stored.len(),
                test == unseen_among(ids@),
                stored.len() == rows.len(),
                changed == count_rows(rows.take(i as int), test),
                changed <= i,
                forall|k: int|
                    0 <= k < i ==> (#[trigger] stored@[k])@ == seen_where(rows, test, now@)[k],
                forall|k: int| i <= k < rows.len() ==> (#[trigger] stored@[k])@ == rows[k],
            decreases stored.len() - i,
        {
            assert(rows.take(i + 1).drop_last() =~= rows.take(i as int));
            assert(stored@[i as int]@ == rows[i as int]);
            if stored[i].row.seen_at.is_none() && among(ids, stored[i].row.id) {
                stored[i].row.seen_at = Some(now.to_owned());
                changed = changed + 1;
            }
            i = i + 1;
        }
        proof {
            assert(rows.take(rows.len() as int) =~= rows);
            assert(text::views(stored@) =~= seen_where(rows, test, now@));
            lemma_seen_well_formed(rows, test, now@);
        }
        self.rows = stored;
        changed
    }

    /// Marks specific rows as seen now. Already-seen rows keep their original
    /// `seen_at`. Returns how many rows went from unseen to seen.
    pub fn mark_seen(&mut self, ids: &[i64]) -> (r: usize)
        ensures
            r == count_rows(old(self)@.rows, unseen_among(ids@)),
            exists|at: (i64, u32)|
                clock::rfc3339_text(at.0, at.1) is Some && final(self)@ == (LedgerView {
                    rows: seen_where(
                        old(self)@.rows,
                        unseen_among(ids@),
                        (#[trigger] clock::rfc3339_text(at.0, at.1))->0,
                    ),
                    ..old(self)@
                }),
            well_formed(final(self)@.rows),
    {
        let at = Timestamp::now();
        let now = at.to_rfc3339();
        assert(clock::rfc3339_text(at@.0, at@.1) == Some(now@));
        self.mark_seen_at(ids, now.as_str())
    }

    /// Marks every unseen row (of `kind`, when given) as seen at `now`.
    /// Returns how many rows went from unseen to seen.
    pub fn mark_all_seen_at(&mut self, kind: Option<ActivityKind>, now: &str) -> (r: usize)
        ensures
            r == count_rows(old(self)@.rows, unseen(kind)),
            final(self)@ == (LedgerView {
                rows: seen_where(old(self)@.rows, unseen(kind), now@),
                ..old(self)@
            }),
            well_formed(final(self)@.rows),
    {
        proof {
            use_type_invariant(&*self);
        }
        let ghost rows = self@.rows;
        let ghost test = unseen(kind);
        let mut stored: Vec<LedgerRow> = Vec::new();
        std::mem::swap(&mut stored, &mut self.rows);
        let mut changed: usize = 0;
        let mut i: usize = 0;
        assert(rows.take(0) =~= Seq::empty());
        while i < stored.len()
            invariant
                i <= stored.len(),
                test == unseen(kind),
                stored.len() == rows.len(),
                changed == count_rows(rows.take(i as int), test),
                changed <= i,
                forall|k: int|
                    0 <= k < i ==> (#[trigger] stored@[k])@ == seen_where(rows, test, now@)[k],
                forall|k: int| i <= k < rows.len() ==> (#[trigger] stored@[k])@ == rows[k],
            decreases stored.len() - i,
        {
            assert(rows.take(i + 1).drop_last() =~= rows.take(i as int));
            assert(stored@[i as int]@ == rows[i as int]);
            if stored[i].row.is_unseen(kind) {
                stored[i].row.seen_at = Some(now.to_owned());
                changed = changed + 1;
            }
            i = i + 1;
        }
        proof {
            assert(rows.take(rows.len() as int) =~= rows);
            assert(text::views(stored@) =~= seen_where(rows, test, now@));
            lemma_seen_well_formed(rows, test, now@);
        }
        self.rows = stored;
        changed
    }

    /// Marks every unseen row (of `kind`, when given) as seen now. Returns
    /// how many rows went from unseen to seen.
    pub fn mark_all_seen(&mut self, kind: Option<ActivityKind>) -> (r: usize)
        ensures
            r == count_rows(old(self)@.rows, unseen(kind)),
            exists|at: (i64, u32)|
                clock::rfc3339_text(at.0, at.1) is Some && final(self)@ == (LedgerView {
                    rows: seen_where(
                        old(self)@.rows,
                        unseen(kind),
                        (#[trigger] clock::rfc3339_text(at.0, at.1))->0,
                    ),
                    ..old(self)@
                }),
            well_formed(final(self)@.rows),
    {
        let at = Timestamp::now();
        let now = at.to_rfc3339();
        assert(clock::rfc3339_text(at@.0, at@.1) == Some(now@));
        self.mark_all_seen_at(kind, now.as_str())
    }
}

fn among(ids: &[i64], id: i64) -> (r: bool)
    ensures
        r == ids@.contains(id),
{
    let mut i: usize = 0;
    while i < ids.len()
        invariant
            i <= ids.len(),
            forall|k: int| 0 <= k < i ==> ids@[k] != id,
        decreases ids.len() - i,
    {
        if ids[i] == id {
            return true;
        }
        i = i + 1;
    }
    false
}

/// The failure of the storage under the ledger, in the storage's words.
pub fn sql_error(words: &str) -> (r: ActorError)
    ensures
        r matches ActorError::Runtime(m) && m@ == "activity log: "@ + words@,
{
    let mut message = "activity log: ".to_owned();
    message.append(words);
    ActorError::Runtime(message)
}

/// Collapses white space and caps the length: a clean one-glance line, never
/// a raw multi-paragraph result.
pub fn compact_summary(text: &str, max_chars: usize) -> (r: String)
    ensures
        r@ == text::capped(text::collapsed(text@), max_chars as nat, seq!['\u{2026}']),
{
    let line = collapse(text);
    proof {
        reveal_strlit("\u{2026}");
    }
    assert("\u{2026}"@ =~= seq!['\u{2026}']);
    cap_text(line.as_str(), max_chars, "\u{2026}")
}

impl ActivityRow {
    /// Whether the user never opened the row, and it is of `kind` when given.
    fn is_unseen(&self, kind: Option<ActivityKind>) -> (r: bool)
        ensures
            forall|e: Option<Seq<char>>|
                r == #[trigger] unseen(kind)(LedgerRowView { row: self@, event_id: e }),
    {
        if self.seen_at.is_some() {
            return false;
        }
        match kind {
            Some(kind) => same_text(self.kind.as_str(), kind.as_str()),
            None => true,
        }
    }
}

/// Appending keeps a ledger a ledger.
pub proof fn lemma_append_well_formed(ledger: LedgerView, entry: NewActivityView)
    requires
        well_formed(ledger.rows),
        next_id(ledger) <= i64::MAX,
    ensures
        well_formed(appended(ledger, entry).rows),
{
    let rows = ledger.rows;
    if !recorded(rows, entry.event_id) {
        let after = appended(ledger, entry).rows;
        let n = rows.len() as int;
        assert forall|i: int, j: int| 0 <= i < j < after.len() implies (#[trigger]
        after[i]).row.id < (#[trigger] after[j]).row.id by {
            if j == n {
                assert(after[i] == rows[i]);
                if i < n - 1 {
                    assert(rows[i].row.id < rows[n - 1].row.id);
                }
            } else {
                assert(rows[i].row.id < rows[j].row.id);
            }
        }
        assert forall|i: int, j: int|
            0 <= i < j < after.len() && (#[trigger] after[i]).event_id is Some implies
            after[i].event_id != (#[trigger] after[j]).event_id by {
            assert(after[i] == rows[i]);
        }
    }
}

/// Marking rows as seen keeps a ledger a ledger.
pub proof fn lemma_seen_well_formed(
    rows: Seq<LedgerRowView>,
    test: spec_fn(LedgerRowView) -> bool,
    now: Seq<char>,
)
    requires
        well_formed(rows),
    ensures
        well_formed(seen_where(rows, test, now)),
{
    let after = seen_where(rows, test, now);
    assert forall|i: int| 0 <= i < rows.len() implies (#[trigger] after[i]).row.id == rows[i].row.id
        && after[i].event_id == rows[i].event_id by {}
    assert forall|i: int, j: int| 0 <= i < j < after.len() implies (#[trigger] after[i]).row.id < (
    #[trigger] after[j]).row.id by {
        assert(rows[i].row.id < rows[j].row.id);
    }
    assert forall|i: int, j: int|
        0 <= i < j < after.len() && (#[trigger] after[i]).event_id is Some implies after[i].event_id
        != (#[trigger] after[j]).event_id by {
        assert(rows[i].event_id != rows[j].event_id);
    }
}

/// Ids are unique: the row at position `i` is the one its id finds.
pub proof fn lemma_row_with_id(rows: Seq<LedgerRowView>, i: int)
    requires
        well_formed(rows),
        0 <= i < rows.len(),
    ensures
        row_with_id(rows, rows[i].row.id) == Some(rows[i].row),
{
    let id = rows[i].row.id;
    let k = choose|k: int| 0 <= k < rows.len() && (#[trigger] rows[k]).row.id == id;
    assert(rows[i].row.id == id);
    if k < i {
        assert(rows[k].row.id < rows[i].row.id);
    } else if i < k {
        assert(rows[i].row.id < rows[k].row.id);
    }
}

} // verus!
