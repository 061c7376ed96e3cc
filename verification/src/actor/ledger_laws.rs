//! What holds of the ledger over several operations.
use vstd::prelude::*;

use crate::actor::activity_log as ledger;
use crate::actor::activity_log::ActivityKind;
use crate::actor::activity_log::ActivityRowView;
use crate::actor::activity_log::LedgerRowView;
use crate::actor::activity_log::LedgerView;
use crate::actor::activity_log::NewActivityView;
use crate::clock;
use crate::text;

verus! {

/// Retries are ignored: once an entry with an event id is in the ledger, a
/// further append with the same event id leaves the rows as they are.
pub proof fn law_retry_is_ignored(
    before: LedgerView,
    first: NewActivityView,
    retry: NewActivityView,
)
    requires
        first.event_id is Some,
        retry.event_id == first.event_id,
    ensures
        ledger::recorded(ledger::appended(before, first).rows, retry.event_id),
        ledger::appended(ledger::appended(before, first), retry).rows == ledger::appended(
            before,
            first,
        ).rows,
{
    let after = ledger::appended(before, first);
    if !ledger::recorded(before.rows, first.event_id) {
        assert(after.rows[before.rows.len() as int].event_id == first.event_id);
    }
}

/// Entries without an event id never collide: each one becomes a row.
pub proof fn law_no_event_id_always_appends(before: LedgerView, entry: NewActivityView)
    requires
        entry.event_id is None,
    ensures
        ledger::appended(before, entry).rows == before.rows.push(
            ledger::row_of(entry, ledger::next_id(before) as i64),
        ),
{
}

/// No id is given twice: every append, an ignored one too, uses up one id,
/// and the next id is past it.
pub proof fn law_each_append_uses_up_an_id(before: LedgerView, entry: NewActivityView)
    requires
        ledger::next_id(before) <= i64::MAX,
    ensures
        ledger::next_id(ledger::appended(before, entry)) == ledger::next_id(before) + 1,
{
}

/// A read gives back what an append wrote: the new row is found under the
/// returned id, holds what the entry held, and is unseen.
pub proof fn law_append_then_get(before: LedgerView, entry: NewActivityView)
    requires
        ledger::well_formed(before.rows),
        ledger::next_id(before) <= i64::MAX,
        !ledger::recorded(before.rows, entry.event_id),
    ensures
        ledger::row_with_id(
            ledger::appended(before, entry).rows,
            ledger::next_id(before) as i64,
        ) == Some(ledger::row_of(entry, ledger::next_id(before) as i64).row),
        ledger::row_of(entry, ledger::next_id(before) as i64).row.seen_at is None,
{
    ledger::lemma_append_well_formed(before, entry);
    ledger::lemma_row_with_id(
        ledger::appended(before, entry).rows,
        before.rows.len() as int,
    );
}

/// Whether `after` holds every row of `before` in its place, changed at most
/// in that an unseen row was seen.
pub open spec fn continues(before: Seq<LedgerRowView>, after: Seq<LedgerRowView>) -> bool {
    &&& before.len() <= after.len()
    &&& forall|i: int|
        0 <= i < before.len() ==> {
            ||| #[trigger] after[i] == before[i]
            ||| before[i].row.seen_at is None && after[i].row.seen_at is Some && after[i]
                == (LedgerRowView {
                row: ActivityRowView { seen_at: after[i].row.seen_at, ..before[i].row },
                ..before[i]
            })
        }
}

/// The ledger is append-only: an append keeps every row as it was.
pub proof fn law_append_only(before: LedgerView, entry: NewActivityView)
    ensures
        continues(before.rows, ledger::appended(before, entry).rows),
        ledger::appended(before, entry).rows.take(before.rows.len() as int) == before.rows,
{
    assert(ledger::appended(before, entry).rows.take(before.rows.len() as int) =~= before.rows);
}

/// Seeing is once: rows that were seen before keep their first `seen_at`, and
/// nothing else of any row changes.
pub proof fn law_first_seen_at_is_kept(
    rows: Seq<LedgerRowView>,
    ids: Seq<i64>,
    kind: Option<ActivityKind>,
    now: Seq<char>,
)
    ensures
        continues(rows, ledger::seen_where(rows, ledger::unseen_among(ids), now)),
        continues(rows, ledger::seen_where(rows, ledger::unseen(kind), now)),
        ledger::seen_where(rows, ledger::unseen_among(ids), now).len() == rows.len(),
        ledger::seen_where(rows, ledger::unseen(kind), now).len() == rows.len(),
{
}

/// Marking the same rows again, at any later time, changes nothing and
/// reports no row.
pub proof fn law_mark_seen_twice(
    rows: Seq<LedgerRowView>,
    ids: Seq<i64>,
    first: Seq<char>,
    second: Seq<char>,
)
    ensures
        ({
            let after = ledger::seen_where(rows, ledger::unseen_among(ids), first);
            &&& ledger::seen_where(after, ledger::unseen_among(ids), second) == after
            &&& ledger::count_rows(after, ledger::unseen_among(ids)) == 0
        }),
{
    let after = ledger::seen_where(rows, ledger::unseen_among(ids), first);
    assert(ledger::seen_where(after, ledger::unseen_among(ids), second) =~= after);
    lemma_count_zero(after, ledger::unseen_among(ids));
}

proof fn lemma_count_zero(rows: Seq<LedgerRowView>, test: spec_fn(LedgerRowView) -> bool)
    requires
        forall|i: int| 0 <= i < rows.len() ==> !test(#[trigger] rows[i]),
    ensures
        ledger::count_rows(rows, test) == 0,
    decreases rows.len(),
{
    if rows.len() > 0 {
        let rest = rows.drop_last();
        assert forall|i: int| 0 <= i < rest.len() implies !test(#[trigger] rest[i]) by {
            assert(rest[i] == rows[i]);
        }
        lemma_count_zero(rest, test);
    }
}

/// After every unseen row of a kind was marked, none of that kind is
/// unseen, and the rows of another kind are as they were.
pub proof fn law_mark_all_seen(
    rows: Seq<LedgerRowView>,
    kind: Option<ActivityKind>,
    now: Seq<char>,
)
    ensures
        ledger::count_rows(
            ledger::seen_where(rows, ledger::unseen(kind), now),
            ledger::unseen(kind),
        ) == 0,
        kind matches Some(k) ==> forall|i: int|
            0 <= i < rows.len() && rows[i].row.kind != ledger::kind_text(k)
                ==> #[trigger] ledger::seen_where(rows, ledger::unseen(kind), now)[i] == rows[i],
{
    lemma_count_zero(
        ledger::seen_where(rows, ledger::unseen(kind), now),
        ledger::unseen(kind),
    );
}

proof fn lemma_marked_leave_unseen(
    rows: Seq<LedgerRowView>,
    test: spec_fn(LedgerRowView) -> bool,
    now: Seq<char>,
)
    requires
        forall|r: LedgerRowView| #[trigger] test(r) ==> r.row.seen_at is None,
    ensures
        ledger::count_rows(rows, ledger::unseen(None)) == ledger::count_rows(
            ledger::seen_where(rows, test, now),
            ledger::unseen(None),
        ) + ledger::count_rows(rows, test),
    decreases rows.len(),
{
    if rows.len() > 0 {
        let rest = rows.drop_last();
        lemma_marked_leave_unseen(rest, test, now);
        assert(ledger::seen_where(rows, test, now).drop_last() =~= ledger::seen_where(
            rest,
            test,
            now,
        ));
    }
}

/// The badge goes down by exactly the number that marking reports.
pub proof fn law_marking_lowers_the_badge(
    rows: Seq<LedgerRowView>,
    ids: Seq<i64>,
    kind: Option<ActivityKind>,
    now: Seq<char>,
)
    ensures
        ledger::count_rows(rows, ledger::unseen(None)) == ledger::count_rows(
            ledger::seen_where(rows, ledger::unseen_among(ids), now),
            ledger::unseen(None),
        ) + ledger::count_rows(rows, ledger::unseen_among(ids)),
        ledger::count_rows(rows, ledger::unseen(None)) == ledger::count_rows(
            ledger::seen_where(rows, ledger::unseen(kind), now),
            ledger::unseen(None),
        ) + ledger::count_rows(rows, ledger::unseen(kind)),
{
    lemma_marked_leave_unseen(rows, ledger::unseen_among(ids), now);
    lemma_marked_leave_unseen(rows, ledger::unseen(kind), now);
}

/// A new row raises the badge by one, for all kinds together and for its own
/// kind, and for no other.
pub proof fn law_append_raises_the_badge(
    before: LedgerView,
    entry: NewActivityView,
    kind: Option<ActivityKind>,
)
    requires
        !ledger::recorded(before.rows, entry.event_id),
    ensures
        ledger::count_rows(ledger::appended(before, entry).rows, ledger::unseen(kind))
            == ledger::count_rows(before.rows, ledger::unseen(kind)) + if kind is None || kind
            == Some(entry.kind) {
            1nat
        } else {
            0nat
        },
{
    let after = ledger::appended(before, entry).rows;
    assert(after.drop_last() =~= before.rows);
    if let Some(k) = kind {
        ledger::lemma_kind_text_injective(k, entry.kind);
    }
}

proof fn lemma_listed(rows: Seq<LedgerRowView>, before: i64)
    ensures
        forall|k: int|
            0 <= k < ledger::newest_first(rows, before).len() ==> (#[trigger] ledger::newest_first(
                rows,
                before,
            )[k]).id < before && exists|i: int|
                0 <= i < rows.len() && (#[trigger] rows[i]).row == ledger::newest_first(rows, before)[k],
    decreases rows.len(),
{
    if rows.len() > 0 {
        let rest = rows.drop_last();
        let all = ledger::newest_first(rows, before);
        lemma_listed(rest, before);
        assert forall|k: int| 0 <= k < all.len() implies (#[trigger] all[k]).id < before && exists|
            i: int,
        |
            0 <= i < rows.len() && (#[trigger] rows[i]).row == all[k] by {
            if rows.last().row.id < before && k == 0 {
                assert(rows[rows.len() - 1].row == all[0]);
            } else {
                let m = if rows.last().row.id < before {
                    k - 1
                } else {
                    k
                };
                assert(all[k] == ledger::newest_first(rest, before)[m]);
                let i = choose|i: int|
                    0 <= i < rest.len() && (#[trigger] rest[i]).row == ledger::newest_first(
                        rest,
                        before,
                    )[m];
                assert(rows[i].row == all[k]);
            }
        }
    }
}

proof fn lemma_all_older(rows: Seq<LedgerRowView>, a: i64, b: i64)
    requires
        forall|i: int| 0 <= i < rows.len() ==> (#[trigger] rows[i]).row.id < a,
        forall|i: int| 0 <= i < rows.len() ==> (#[trigger] rows[i]).row.id < b,
    ensures
        ledger::newest_first(rows, a) == ledger::newest_first(rows, b),
    decreases rows.len(),
{
    if rows.len() > 0 {
        let rest = rows.drop_last();
        assert forall|i: int| 0 <= i < rest.len() implies (#[trigger] rest[i]).row.id < a
            && rest[i].row.id < b by {
            assert(rest[i] == rows[i]);
        }
        lemma_all_older(rest, a, b);
    }
}

proof fn lemma_well_formed_front(rows: Seq<LedgerRowView>)
    requires
        ledger::well_formed(rows),
        rows.len() > 0,
    ensures
        ledger::well_formed(rows.drop_last()),
        forall|i: int|
            0 <= i < rows.len() - 1 ==> (#[trigger] rows.drop_last()[i]).row.id
                < rows.last().row.id,
{
    let rest = rows.drop_last();
    assert forall|i: int, j: int| 0 <= i < j < rest.len() implies (#[trigger] rest[i]).row.id < (
    #[trigger] rest[j]).row.id && (rest[i].event_id is Some ==> rest[i].event_id
        != rest[j].event_id) by {
        assert(rest[i] == rows[i] && rest[j] == rows[j]);
    }
    assert forall|i: int| 0 <= i < rows.len() - 1 implies (#[trigger] rest[i]).row.id
        < rows.last().row.id by {
        assert(rest[i] == rows[i]);
    }
}

proof fn lemma_next_page(rows: Seq<LedgerRowView>, before: i64, k: int)
    requires
        ledger::well_formed(rows),
        0 <= k < ledger::newest_first(rows, before).len(),
    ensures
        ledger::newest_first(rows, before).skip(k + 1) == ledger::newest_first(
            rows,
            ledger::newest_first(rows, before)[k].id,
        ),
    decreases rows.len(),
{
    let all = ledger::newest_first(rows, before);
    if rows.len() > 0 {
        let rest = rows.drop_last();
        let last = rows.last().row;
        lemma_well_formed_front(rows);
        let older = ledger::newest_first(rest, before);
        if last.id < before {
            if k == 0 {
                assert(all.skip(1) =~= older);
                lemma_all_older(rest, before, last.id);
            } else {
                assert(all[k] == older[k - 1]);
                assert(all.skip(k + 1) =~= older.skip(k));
                lemma_next_page(rest, before, k - 1);
                lemma_listed(rest, before);
            }
        } else {
            lemma_next_page(rest, before, k);
            lemma_listed(rest, before);
        }
    }
}

/// Paging walks backwards without gaps and without repetition: what a page
/// leaves out is exactly the history before its last row.
pub proof fn law_paging(rows: Seq<LedgerRowView>, limit: nat, before_id: Option<i64>)
    requires
        ledger::well_formed(rows),
        ledger::page(rows, limit, before_id).len() > 0,
    ensures
        ({
            let p = ledger::page(rows, limit, before_id);
            let before = match before_id {
                Some(id) => id,
                None => i64::MAX,
            };
            ledger::newest_first(rows, before) == p + ledger::newest_first(rows, p.last().id)
        }),
{
    let p = ledger::page(rows, limit, before_id);
    let before = match before_id {
        Some(id) => id,
        None => i64::MAX,
    };
    let all = ledger::newest_first(rows, before);
    let k = p.len() - 1;
    lemma_next_page(rows, before, k);
    assert(all[k] == p.last());
    assert(all =~= p + all.skip(k + 1));
}

/// A page holds rows of the ledger with ids below the bound, each id below
/// the one before it.
pub proof fn law_page_is_newest_first(rows: Seq<LedgerRowView>, limit: nat, before_id: Option<i64>)
    requires
        ledger::well_formed(rows),
    ensures
        forall|k: int|
            0 <= k < ledger::page(rows, limit, before_id).len() ==> ledger::row_with_id(
                rows,
                (#[trigger] ledger::page(rows, limit, before_id)[k]).id,
            ) == Some(ledger::page(rows, limit, before_id)[k]),
        before_id matches Some(b) ==> forall|k: int|
            0 <= k < ledger::page(rows, limit, before_id).len() ==> (#[trigger] ledger::page(
                rows,
                limit,
                before_id,
            )[k]).id < b,
        forall|k: int, m: int|
            0 <= k < m < ledger::page(rows, limit, before_id).len() ==> (#[trigger] ledger::page(
                rows,
                limit,
                before_id,
            )[m]).id < (#[trigger] ledger::page(rows, limit, before_id)[k]).id,
{
    let p = ledger::page(rows, limit, before_id);
    let before = match before_id {
        Some(id) => id,
        None => i64::MAX,
    };
    let all = ledger::newest_first(rows, before);
    lemma_listed(rows, before);
    assert forall|k: int| 0 <= k < p.len() implies ledger::row_with_id(rows, (#[trigger] p[k]).id) == Some(
        p[k],
    ) && p[k].id < before by {
        assert(p[k] == all[k]);
        let i = choose|i: int| 0 <= i < rows.len() && (#[trigger] rows[i]).row == all[k];
        ledger::lemma_row_with_id(rows, i);
    }
    assert forall|k: int, m: int| 0 <= k < m < p.len() implies (#[trigger] p[m]).id < (#[trigger]
    p[k]).id by {
        assert(p[k] == all[k] && p[m] == all[m]);
        lemma_next_page(rows, before, k);
        lemma_listed(rows, all[k].id);
        assert(all.skip(k + 1)[m - k - 1] == all[m]);
    }
}

/// A summary is one capped line: at most `max_chars` characters and the mark
/// of a cut, and no white space but plain spaces.
pub proof fn law_summary_is_one_capped_line(words: Seq<char>, max_chars: nat)
    ensures
        ({
            let summary = text::capped(text::collapsed(words), max_chars, seq!['\u{2026}']);
            &&& text::one_line(summary)
            &&& summary.len() <= max_chars + 1
            &&& text::collapsed(words).len() <= max_chars ==> summary == text::collapsed(words)
        }),
{
    text::law_collapsed_is_one_line(words);
    let line = text::collapsed(words);
    let summary = text::capped(line, max_chars, seq!['\u{2026}']);
    assert(!text::is_white('\u{2026}'));
    assert forall|i: int| 0 <= i < summary.len() && text::is_white(#[trigger] summary[i]) implies
    summary[i] == ' ' by {
        if i < line.len() && i < max_chars {
            assert(summary[i] == line[i]);
        }
    }
}

proof fn lemma_count_is_filter(rows: Seq<LedgerRowView>, test: spec_fn(LedgerRowView) -> bool)
    ensures
        ledger::count_rows(rows, test) == rows.filter(test).len(),
    decreases rows.len(),
{
    reveal(Seq::filter);
    if rows.len() > 0 {
        lemma_count_is_filter(rows.drop_last(), test);
    }
}

/// Whether `after` is `before` with the row seen at `now`, and nothing else of
/// it changed.
pub open spec fn seen_now(before: LedgerRowView, after: LedgerRowView, now: Seq<char>) -> bool {
    &&& after.row.seen_at == Some(now)
    &&& after.event_id == before.event_id
    &&& after.row.id == before.row.id
    &&& after.row.kind == before.row.kind
    &&& after.row.actor_id == before.row.actor_id
    &&& after.row.title == before.row.title
    &&& after.row.summary == before.row.summary
    &&& after.row.detail == before.row.detail
    &&& after.row.category == before.row.category
    &&& after.row.urgency == before.row.urgency
    &&& after.row.source_name == before.row.source_name
    &&& after.row.produced_at == before.row.produced_at
}

/// Marking ids as seen marks every row whose id is anywhere among them: it is
/// seen afterwards, since now where it was unseen before. Rows that were seen,
/// and rows with other ids, stay as they were. What is reported is how many
/// unseen rows had one of the ids.
pub proof fn law_every_marked_id_is_seen(
    rows: Seq<LedgerRowView>,
    ids: Seq<i64>,
    now: Seq<char>,
)
    ensures
        ({
            let after = ledger::seen_where(rows, ledger::unseen_among(ids), now);
            &&& after.len() == rows.len()
            &&& forall|i: int, k: int|
                0 <= i < rows.len() && 0 <= k < ids.len() && (#[trigger] rows[i]).row.id
                    == #[trigger] ids[k] ==> after[i].row.seen_at is Some
            &&& forall|i: int, k: int|
                0 <= i < rows.len() && 0 <= k < ids.len() && (#[trigger] rows[i]).row.id
                    == #[trigger] ids[k] && rows[i].row.seen_at is None ==> seen_now(
                    rows[i],
                    after[i],
                    now,
                )
            &&& forall|i: int|
                0 <= i < rows.len() && (#[trigger] rows[i]).row.seen_at is Some ==> after[i]
                    == rows[i]
            &&& forall|i: int|
                0 <= i < rows.len() && (forall|k: int|
                    0 <= k < ids.len() ==> (#[trigger] rows[i]).row.id != #[trigger] ids[k])
                    ==> after[i] == rows[i]
        }),
        ledger::count_rows(rows, ledger::unseen_among(ids)) == rows.filter(
            |r: LedgerRowView|
                r.row.seen_at is None && exists|k: int|
                    0 <= k < ids.len() && #[trigger] ids[k] == r.row.id,
        ).len(),
{
    let test = |r: LedgerRowView|
        r.row.seen_at is None && exists|k: int|
            0 <= k < ids.len() && #[trigger] ids[k] == r.row.id;
    lemma_count_is_filter(rows, ledger::unseen_among(ids));
    lemma_same_filter(rows, ledger::unseen_among(ids), test);
}

proof fn lemma_same_filter(
    rows: Seq<LedgerRowView>,
    a: spec_fn(LedgerRowView) -> bool,
    b: spec_fn(LedgerRowView) -> bool,
)
    requires
        forall|r: LedgerRowView| #[trigger] a(r) == b(r),
    ensures
        rows.filter(a) == rows.filter(b),
    decreases rows.len(),
{
    reveal(Seq::filter);
    if rows.len() > 0 {
        lemma_same_filter(rows.drop_last(), a, b);
    }
}

/// Whether a row is of a kind, or of any where none is given.
pub open spec fn of_kind(row: LedgerRowView, kind: Option<ActivityKind>) -> bool {
    &&& kind == Some(ActivityKind::Insight) ==> row.row.kind == "insight"@
    &&& kind == Some(ActivityKind::Activity) ==> row.row.kind == "activity"@
}

/// Marking everything as seen marks every unseen row of the kind, since now,
/// and leaves all others as they were. What is reported, and what the badge
/// shows, is how many unseen rows of the kind there were.
pub proof fn law_every_row_of_the_kind_is_seen(
    rows: Seq<LedgerRowView>,
    kind: Option<ActivityKind>,
    now: Seq<char>,
)
    ensures
        ({
            let after = ledger::seen_where(rows, ledger::unseen(kind), now);
            &&& after.len() == rows.len()
            &&& forall|i: int|
                0 <= i < rows.len() && (#[trigger] rows[i]).row.seen_at is None && of_kind(
                    rows[i],
                    kind,
                ) ==> seen_now(rows[i], after[i], now)
            &&& forall|i: int|
                0 <= i < rows.len() && ((#[trigger] rows[i]).row.seen_at is Some || !of_kind(
                    rows[i],
                    kind,
                )) ==> after[i] == rows[i]
        }),
        ledger::count_rows(rows, ledger::unseen(kind)) == rows.filter(
            |r: LedgerRowView| r.row.seen_at is None && of_kind(r, kind),
        ).len(),
{
    lemma_count_is_filter(rows, ledger::unseen(kind));
    lemma_same_filter(
        rows,
        ledger::unseen(kind),
        |r: LedgerRowView| r.row.seen_at is None && of_kind(r, kind),
    );
}

/// A count is reported as it is, as long as there is a number for it.
pub proof fn law_counts_are_reported(n: nat)
    ensures
        n <= i64::MAX ==> ledger::reported(n) == n,
        n > i64::MAX ==> ledger::reported(n) == i64::MAX,
{
}

/// An append adds one row at the end, which holds what the entry holds and is
/// unseen; it adds none where the entry has an event id that a row has. Where
/// it is stored does not change.
pub proof fn law_append_writes_the_entry(before: LedgerView, entry: NewActivityView)
    ensures
        ({
            let after = ledger::appended(before, entry);
            let n = before.rows.len() as int;
            let known = exists|i: int|
                0 <= i < before.rows.len() && (#[trigger] before.rows[i]).event_id is Some
                    && before.rows[i].event_id == entry.event_id;
            &&& after.path == before.path
            &&& known ==> after.rows == before.rows
            &&& !known ==> after.rows.len() == n + 1
            &&& forall|i: int| 0 <= i < n ==> #[trigger] after.rows[i] == before.rows[i]
            &&& !known ==> {
                let new = after.rows[n];
                &&& new.event_id == entry.event_id
                &&& new.row.id == ledger::next_id(before) as i64
                &&& entry.kind == ActivityKind::Insight ==> new.row.kind == "insight"@
                &&& entry.kind == ActivityKind::Activity ==> new.row.kind == "activity"@
                &&& new.row.actor_id == entry.actor_id
                &&& new.row.title == entry.title
                &&& new.row.summary == entry.summary
                &&& new.row.detail == entry.detail
                &&& new.row.category == entry.category
                &&& new.row.urgency == entry.urgency
                &&& new.row.source_name == entry.source_name
                &&& clock::rfc3339_text(entry.produced_at.0, entry.produced_at.1) matches Some(at)
                    ==> new.row.produced_at == at
                &&& new.row.seen_at is None
            }
            &&& ledger::recorded(before.rows, entry.event_id) == known
        }),
{
}

/// The next id is past every id in the ledger and past every id that was used
/// up, it is the smallest such number, and a ledger that never held a row
/// begins with 1.
pub proof fn law_next_id_is_fresh(before: LedgerView)
    requires
        ledger::well_formed(before.rows),
    ensures
        ({
            let id = ledger::next_id(before);
            &&& id > before.sequence
            &&& forall|i: int| 0 <= i < before.rows.len() ==> (#[trigger] before.rows[i]).row.id < id
            &&& before.rows.len() == 0 ==> id >= 1
            &&& id - 1 == before.sequence || (id == 1 && before.rows.len() == 0) || exists|i: int|
                0 <= i < before.rows.len() && (#[trigger] before.rows[i]).row.id == id - 1
        }),
{
    let n = before.rows.len() as int;
    assert forall|i: int| 0 <= i < n implies (#[trigger] before.rows[i]).row.id < ledger::next_id(
        before,
    ) by {
        if i < n - 1 {
            assert(before.rows[i].row.id < before.rows[n - 1].row.id);
        }
    }
    if n > 0 {
        assert(before.rows[n - 1].row.id == before.rows.last().row.id);
    }
}

/// An id finds the row that carries it, and nothing where no row does.
pub proof fn law_get_finds_the_row(rows: Seq<LedgerRowView>, id: i64)
    requires
        ledger::well_formed(rows),
    ensures
        forall|i: int|
            0 <= i < rows.len() && (#[trigger] rows[i]).row.id == id ==> ledger::row_with_id(
                rows,
                id,
            ) == Some(rows[i].row),
        (forall|i: int| 0 <= i < rows.len() ==> (#[trigger] rows[i]).row.id != id)
            ==> ledger::row_with_id(rows, id) is None,
{
    assert forall|i: int| 0 <= i < rows.len() && (#[trigger] rows[i]).row.id == id implies
    ledger::row_with_id(rows, id) == Some(rows[i].row) by {
        ledger::lemma_row_with_id(rows, i);
    }
}

/// Rows are a ledger exactly where the order of the rows is the order of their
/// ids, and an event has one row.
pub proof fn law_ledger_is_in_order(rows: Seq<LedgerRowView>)
    ensures
        ledger::well_formed(rows) <==> {
            &&& forall|i: int, j: int|
                0 <= i < rows.len() && 0 <= j < rows.len() ==> (i < j <==> (
                #[trigger] rows[i]).row.id < (#[trigger] rows[j]).row.id)
            &&& forall|i: int, j: int|
                0 <= i < rows.len() && 0 <= j < rows.len() && (#[trigger] rows[i]).event_id is Some
                    && rows[i].event_id == (#[trigger] rows[j]).event_id ==> i == j
        },
{
    if ledger::well_formed(rows) {
        assert forall|i: int, j: int|
            0 <= i < rows.len() && 0 <= j < rows.len() implies (i < j <==> (
        #[trigger] rows[i]).row.id < (#[trigger] rows[j]).row.id) by {
            if j < i {
                assert(rows[j].row.id < rows[i].row.id);
            }
        }
        assert forall|i: int, j: int|
            0 <= i < rows.len() && 0 <= j < rows.len() && (#[trigger] rows[i]).event_id is Some
                && rows[i].event_id == (#[trigger] rows[j]).event_id implies i == j by {
            if i < j {
                assert(rows[i].event_id != rows[j].event_id);
            } else if j < i {
                assert(rows[j].event_id != rows[i].event_id);
            }
        }
    }
}

/// Those of the rows whose ids are below a bound.
pub open spec fn rows_below(rows: Seq<LedgerRowView>, before: i64) -> Seq<LedgerRowView> {
    rows.filter(|r: LedgerRowView| r.row.id < before)
}

proof fn lemma_newest_first_place(rows: Seq<LedgerRowView>, before: i64, i: int)
    requires
        0 <= i < rows.len(),
    ensures
        ({
            let all = ledger::newest_first(rows, before);
            let newer = rows_below(rows.skip(i + 1), before).len() as int;
            &&& all.len() == rows_below(rows, before).len()
            &&& rows[i].row.id < before ==> newer < all.len() && all[newer] == rows[i].row
        }),
    decreases rows.len(),
{
    reveal(Seq::filter);
    let test = |r: LedgerRowView| r.row.id < before;
    let rest = rows.drop_last();
    let all = ledger::newest_first(rows, before);
    let older = ledger::newest_first(rest, before);
    if rest.len() > 0 {
        lemma_newest_first_place(
            rest,
            before,
            if i < rest.len() {
                i
            } else {
                0
            },
        );
    } else {
        assert(older.len() == 0);
        assert(rest.filter(test).len() == 0);
    }
    if i < rest.len() {
        assert(rows.skip(i + 1).drop_last() =~= rest.skip(i + 1));
        assert(rows.skip(i + 1).last() == rows.last());
        let newer = rows_below(rest.skip(i + 1), before).len() as int;
        if rows[i].row.id < before {
            assert(rest[i] == rows[i]);
            if rows.last().row.id < before {
                assert(all[newer + 1] == older[newer]);
            }
        }
    } else {
        assert(rows.skip(i + 1) =~= Seq::empty());
        assert(rows.skip(i + 1).filter(test).len() == 0);
    }
}

/// A page is as long as was asked for, but at least one row and at most 500,
/// where the history before the bound is that long. Each row of it stands
/// behind as many rows as are newer and still below the bound: so no row is
/// passed over and none stands twice.
pub proof fn law_page_holds_the_newest(
    rows: Seq<LedgerRowView>,
    limit: nat,
    before_id: Option<i64>,
    i: int,
)
    requires
        0 <= i < rows.len(),
    ensures
        ({
            let p = ledger::page(rows, limit, before_id);
            let before = if before_id is Some {
                before_id->0
            } else {
                i64::MAX
            };
            let there = rows_below(rows, before).len();
            let newer = rows_below(rows.skip(i + 1), before).len() as int;
            &&& limit == 0 ==> p.len() == if there >= 1 {
                1nat
            } else {
                0
            }
            &&& 1 <= limit <= 500 ==> p.len() == if there >= limit {
                limit
            } else {
                there
            }
            &&& limit > 500 ==> p.len() == if there >= 500 {
                500nat
            } else {
                there
            }
            &&& rows[i].row.id < before && newer < p.len() ==> p[newer] == rows[i].row
        }),
{
    let before = if before_id is Some {
        before_id->0
    } else {
        i64::MAX
    };
    lemma_newest_first_place(rows, before, i);
}

/// Without rows there is no history.
pub proof fn law_no_rows_no_page(limit: nat, before_id: Option<i64>)
    ensures
        ledger::page(Seq::empty(), limit, before_id).len() == 0,
{
}

} // verus!
