//! The review gate: a language model reads each candidate once more and
//! drops or rewrites it. It catches what the heuristic gate cannot, such as
//! internal reflection. Failures count as "drop", so that a broken call never
//! leaks raw reflection to the user.
use vstd::prelude::*;
use vstd::string::*;

use crate::actor::background::BackgroundNotification;
use crate::actor::background::BackgroundNotificationView;
use crate::actor::notification::SignalView;
use crate::json;
use crate::json::JsonDocument;
use crate::json::JsonDocumentView;
use crate::json::JsonMember;
use crate::json::JsonMemberView;
use crate::json::find_member;
use crate::json::read_json;
use crate::text;
use crate::text::find_first;
use crate::text::find_past_last;
use crate::text::is_blank;
use crate::text::trim;

verus! {

/// What the review says of a candidate.
#[derive(Debug, PartialEq)]
pub enum ReviewOutcome {
    /// Send it, in these words.
    Send(String),
    /// Drop it, for this reason.
    Drop(String),
}

/// What a [`ReviewOutcome`] holds.
pub enum ReviewOutcomeView {
    Send(Seq<char>),
    Drop(Seq<char>),
}

impl View for ReviewOutcome {
    type V = ReviewOutcomeView;

    open spec fn view(&self) -> ReviewOutcomeView {
        match self {
            ReviewOutcome::Send(t) => ReviewOutcomeView::Send(t@),
            ReviewOutcome::Drop(t) => ReviewOutcomeView::Drop(t@),
        }
    }
}

/// The name of the review prompt.
pub const REVIEW_PROMPT_NAME: &'static str = "notification_review";

/// The review prompt that serves when none is configured.
pub const REVIEW_PROMPT_FALLBACK: &'static str = "Review the SIGNAL. Reply JSON only: {\"send\":bool,\"text\":string}.\n\nSIGNAL:\n{signal}\n\nRECENT CONTEXT:\n{context}";

/// The variables of the review prompt: the candidate's content, and the
/// recent context or a note that there is none.
pub open spec fn review_variables_of(
    content: Seq<char>,
    context: Seq<char>,
) -> Seq<(Seq<char>, Seq<char>)> {
    seq![
        ("signal"@, content),
        (
            "context"@,
            if text::blank(context) {
                "(no recent context)"@
            } else {
                context
            },
        ),
    ]
}

/// The variables of the review prompt for a candidate.
pub fn review_variables(candidate: &BackgroundNotification, recent_context: &str) -> (r: Vec<
    (String, String),
>)
    ensures
        text::views(r@) == review_variables_of(candidate@.signal.content, recent_context@),
{
    let context = if is_blank(recent_context) {
        "(no recent context)".to_owned()
    } else {
        recent_context.to_owned()
    };
    let mut variables: Vec<(String, String)> = Vec::new();
    variables.push(("signal".to_owned(), candidate.signal.content.clone()));
    variables.push(("context".to_owned(), context));
    assert(text::views(variables@) =~= review_variables_of(
        candidate@.signal.content,
        recent_context@,
    ));
    variables
}

/// The member of a document with this name; none when the document is not an
/// object.
pub open spec fn document_member(doc: JsonDocumentView, name: Seq<char>) -> Option<JsonMemberView> {
    match doc {
        JsonDocumentView::Object(members) => json::member(members, name),
        JsonDocumentView::Other(_) => None,
    }
}

/// The words that the reviewing model's document offers for the user.
pub open spec fn offered_text(doc: JsonDocumentView) -> Seq<char> {
    match json::as_text(document_member(doc, "text"@)) {
        Some(t) => text::trimmed(t),
        None => Seq::empty(),
    }
}

/// What the reviewing model's answer means, once it was read as a JSON document: send
/// only when `send` is true and `text` is not blank.
pub open spec fn outcome_of_document(
    read: Result<JsonDocumentView, Seq<char>>,
) -> ReviewOutcomeView {
    match read {
        Err(error) => ReviewOutcomeView::Drop("review JSON parse error: "@ + error),
        Ok(doc) => if json::as_bool(document_member(doc, "send"@)) != Some(true) {
            ReviewOutcomeView::Drop("review gate said send=false"@)
        } else if offered_text(doc).len() == 0 {
            ReviewOutcomeView::Drop("review gate returned empty text"@)
        } else {
            ReviewOutcomeView::Send(offered_text(doc))
        },
    }
}

/// The part of an answer that may be JSON: from its first opening brace to
/// its last closing one.
pub open spec fn braced(answer: Seq<char>) -> Option<Seq<char>> {
    let start = text::first_at(answer, |c: char| c == '{');
    let end = text::past_last(answer, '}');
    if start < answer.len() && start < end {
        Some(answer.subrange(start as int, end as int))
    } else {
        None
    }
}

/// What the reviewing model's raw answer means.
pub open spec fn outcome_of(raw: Seq<char>) -> ReviewOutcomeView {
    match braced(text::trimmed(raw)) {
        None => ReviewOutcomeView::Drop("non-JSON review response: "@ + text::trimmed(raw)),
        Some(part) => outcome_of_document(json::json_document(part)),
    }
}

/// What the reviewing model's answer means, once it was read as a JSON document.
pub fn review_document(read: Result<JsonDocument, String>) -> (r: ReviewOutcome)
    ensures
        r@ == outcome_of_document(json::outcome_view(read)),
{
    let doc = match read {
        Ok(doc) => doc,
        Err(error) => {
            let reason = "review JSON parse error: ".to_owned().concat(error.as_str());
            return ReviewOutcome::Drop(reason);
        },
    };
    let ghost seen = doc@;
    let members = match doc {
        JsonDocument::Object(members) => members,
        JsonDocument::Other(_) => {
            return ReviewOutcome::Drop("review gate said send=false".to_owned());
        },
    };
    let send = match find_member(&members, "send") {
        Some(JsonMember::Bool(b)) => *b,
        _ => false,
    };
    if !send {
        return ReviewOutcome::Drop("review gate said send=false".to_owned());
    }
    let text = match find_member(&members, "text") {
        Some(JsonMember::Text(t)) => trim(t.as_str()).to_owned(),
        _ => String::new(),
    };
    assert(text@ =~= offered_text(seen));
    if text.as_str().is_empty() {
        return ReviewOutcome::Drop("review gate returned empty text".to_owned());
    }
    ReviewOutcome::Send(text)
}

/// What the reviewing model's raw answer means.
pub fn parse_review(raw: &str) -> (r: ReviewOutcome)
    ensures
        r@ == outcome_of(raw@),
{
    let trimmed = trim(raw);
    let start: usize = find_first(trimmed, '{');
    let end: usize = find_past_last(trimmed, '}');
    if start >= end {
        let reason = "non-JSON review response: ".to_owned().concat(trimmed);
        return ReviewOutcome::Drop(reason);
    }
    review_document(read_json(trimmed.substring_char(start, end)))
}

/// What came of asking the reviewing model: its answer, or the failure of the call
/// in words.
pub open spec fn outcome_of_reply(reply: Result<Seq<char>, Seq<char>>) -> ReviewOutcomeView {
    match reply {
        Ok(raw) => outcome_of(raw),
        Err(error) => ReviewOutcomeView::Drop("llm review failed: "@ + error),
    }
}

/// What came of asking the reviewing model. A failed call drops the candidate.
pub fn review_reply(reply: &Result<String, String>) -> (r: ReviewOutcome)
    ensures
        r@ == outcome_of_reply(
            match reply {
                Ok(raw) => Ok(raw@),
                Err(error) => Err(error@),
            },
        ),
{
    match reply {
        Ok(raw) => parse_review(raw.as_str()),
        Err(error) => {
            ReviewOutcome::Drop("llm review failed: ".to_owned().concat(error.as_str()))
        },
    }
}

/// The candidate after its review: none when it was dropped, and otherwise
/// with the reviewing model's words, unless those are blank.
pub open spec fn after_review(
    candidate: BackgroundNotificationView,
    outcome: ReviewOutcomeView,
) -> Option<BackgroundNotificationView> {
    match outcome {
        ReviewOutcomeView::Drop(_) => None,
        ReviewOutcomeView::Send(words) => if text::blank(words) {
            Some(candidate)
        } else {
            Some(
                BackgroundNotificationView {
                    signal: SignalView {
                        content: text::trimmed(words),
                        ..candidate.signal
                    },
                    ..candidate
                },
            )
        },
    }
}

/// Applies a review to its candidate.
pub fn apply_review(candidate: BackgroundNotification, outcome: &ReviewOutcome) -> (r: Option<
    BackgroundNotification,
>)
    ensures
        text::opt_view(r) == after_review(candidate@, outcome@),
{
    match outcome {
        ReviewOutcome::Drop(_) => None,
        ReviewOutcome::Send(words) => {
            let mut kept = candidate;
            let trimmed = trim(words.as_str());
            proof {
                text::lemma_trimmed_empty(words@);
            }
            if !trimmed.is_empty() {
                kept.signal.content = trimmed.to_owned();
            }
            Some(kept)
        },
    }
}

/// The candidates that their reviews keep, in order.
pub open spec fn reviewed(
    candidates: Seq<BackgroundNotificationView>,
    outcomes: Seq<ReviewOutcomeView>,
) -> Seq<BackgroundNotificationView>
    decreases candidates.len(),
{
    if candidates.len() == 0 {
        Seq::empty()
    } else {
        let before = reviewed(candidates.drop_last(), outcomes.drop_last());
        match after_review(candidates.last(), outcomes.last()) {
            Some(n) => before.push(n),
            None => before,
        }
    }
}

/// Keeps the candidates that their reviews let through, in order.
pub fn keep_reviewed(
    candidates: Vec<BackgroundNotification>,
    outcomes: &Vec<ReviewOutcome>,
) -> (r: Vec<BackgroundNotification>)
    requires
        candidates.len() == outcomes.len(),
    ensures
        text::views(r@) == reviewed(text::views(candidates@), text::views(outcomes@)),
{
    let ghost all = text::views(candidates@);
    let ghost said = text::views(outcomes@);
    let mut kept: Vec<BackgroundNotification> = Vec::new();
    let mut i: usize = 0;
    assert(all.take(0) =~= Seq::empty());
    assert(text::views(kept@) =~= Seq::empty());
    for candidate in it: candidates
        invariant
            i == it.index(),
            i <= outcomes.len(),
            it.seq() == candidates@,
            candidates.len() == outcomes.len(),
            all == text::views(candidates@),
            said == text::views(outcomes@),
            text::views(kept@) == reviewed(all.take(i as int), said.take(i as int)),
    {
        proof {
            assert(all.take(i + 1).drop_last() =~= all.take(i as int));
            assert(said.take(i + 1).drop_last() =~= said.take(i as int));
            assert(all.take(i + 1).last() == candidate@);
            assert(said.take(i + 1).last() == outcomes@[i as int]@);
        }
        if let Some(n) = apply_review(candidate, &outcomes[i]) {
            proof {
                text::lemma_views_push(kept@, n);
            }
            kept.push(n);
        }
        i = i + 1;
    }
    assert(all.take(all.len() as int) =~= all);
    assert(said.take(said.len() as int) =~= said);
    kept
}

/// Nothing leaks: a failed call, an answer without JSON, and an answer that
/// does not say `send: true` all drop the candidate.
pub proof fn law_failures_drop(
    candidate: BackgroundNotificationView,
    error: Seq<char>,
    raw: Seq<char>,
    read: Result<JsonDocumentView, Seq<char>>,
)
    ensures
        after_review(candidate, outcome_of_reply(Err(error))) is None,
        braced(text::trimmed(raw)) is None ==> after_review(candidate, outcome_of(raw)) is None,
        read is Err ==> after_review(candidate, outcome_of_document(read)) is None,
        read matches Ok(doc) ==> (json::as_bool(document_member(doc, "send"@)) != Some(true)
            ==> after_review(candidate, outcome_of_document(read)) is None),
{
}

/// What reaches the user after a review are the reviewing model's words, never the
/// raw reflection: a kept candidate carries the offered text and nothing else
/// of it has changed.
pub proof fn law_kept_carries_the_reviewed_text(
    candidate: BackgroundNotificationView,
    doc: JsonDocumentView,
)
    ensures
        after_review(candidate, outcome_of_document(Ok(doc))) matches Some(n) ==> {
            &&& n.signal.content == offered_text(doc)
            &&& offered_text(doc).len() > 0
            &&& n == (BackgroundNotificationView {
                signal: SignalView { content: n.signal.content, ..candidate.signal },
                ..candidate
            })
        },
{
    if outcome_of_document(Ok(doc)) is Send {
        let t = json::as_text(document_member(doc, "text"@));
        text::lemma_trimmed_empty(offered_text(doc));
        if let Some(t) = t {
            text::lemma_trimmed_twice(t);
        }
    }
}

/// The reviews keep exactly the candidates that they send: each once, in the
/// order of the candidates. A candidate that is sent stands behind as many
/// others as were sent before it.
pub proof fn law_sent_candidates_are_kept(
    candidates: Seq<BackgroundNotificationView>,
    outcomes: Seq<ReviewOutcomeView>,
    i: int,
)
    requires
        candidates.len() == outcomes.len(),
        0 <= i < candidates.len(),
    ensures
        ({
            let kept = reviewed(candidates, outcomes);
            let sent = |outcome: ReviewOutcomeView| outcome is Send;
            let at = outcomes.take(i).filter(sent).len() as int;
            &&& kept.len() == outcomes.filter(sent).len()
            &&& outcomes[i] matches ReviewOutcomeView::Send(words) ==> {
                &&& at < kept.len()
                &&& !text::blank(words) ==> kept[at].signal.content == text::trimmed(words)
                &&& text::blank(words) ==> kept[at].signal.content == candidates[i].signal.content
                &&& kept[at].signal.event_id == candidates[i].signal.event_id
                &&& kept[at].signal.source == candidates[i].signal.source
                &&& kept[at].signal.source_name == candidates[i].signal.source_name
                &&& kept[at].signal.source_actor_id == candidates[i].signal.source_actor_id
                &&& kept[at].signal.category == candidates[i].signal.category
                &&& kept[at].signal.urgency == candidates[i].signal.urgency
                &&& kept[at].signal.metadata == candidates[i].signal.metadata
                &&& kept[at].signal.observed_at == candidates[i].signal.observed_at
                &&& kept[at].assessment == candidates[i].assessment
                &&& kept[at].decision == candidates[i].decision
            }
        }),
    decreases candidates.len(),
{
    reveal(Seq::filter);
    let kept = reviewed(candidates, outcomes);
    let sent = |outcome: ReviewOutcomeView| outcome is Send;
    let last = candidates.len() - 1;
    if last > 0 {
        let before = if i < last {
            i
        } else {
            0
        };
        law_sent_candidates_are_kept(candidates.drop_last(), outcomes.drop_last(), before);
    } else {
        assert(reviewed(candidates.drop_last(), outcomes.drop_last()).len() == 0);
        assert(outcomes.drop_last().filter(sent).len() == 0);
    }
    assert(outcomes.filter(sent).len() == outcomes.drop_last().filter(sent).len() + if sent(
        outcomes.last(),
    ) {
        1int
    } else {
        0
    });
    if i < last {
        assert(outcomes.drop_last()[i] == outcomes[i]);
        assert(outcomes.drop_last().take(i) =~= outcomes.take(i));
    } else {
        assert(outcomes.take(i) =~= outcomes.drop_last());
    }
}

/// A notification comes out of the reviews only where one was kept: each kept
/// one is the reviewed form of a candidate that was sent.
pub proof fn law_nothing_else_is_kept(
    candidates: Seq<BackgroundNotificationView>,
    outcomes: Seq<ReviewOutcomeView>,
    k: int,
)
    requires
        candidates.len() == outcomes.len(),
        0 <= k < reviewed(candidates, outcomes).len(),
    ensures
        exists|i: int|
            0 <= i < candidates.len() && (#[trigger] outcomes[i]) is Send && reviewed(
                candidates,
                outcomes,
            )[k].signal.event_id == candidates[i].signal.event_id && outcomes.take(i).filter(
                |outcome: ReviewOutcomeView| outcome is Send,
            ).len() == k,
    decreases candidates.len(),
{
    reveal(Seq::filter);
    let sent = |outcome: ReviewOutcomeView| outcome is Send;
    let last = candidates.len() - 1;
    let before = reviewed(candidates.drop_last(), outcomes.drop_last());
    if k < before.len() {
        law_nothing_else_is_kept(candidates.drop_last(), outcomes.drop_last(), k);
        let i = choose|i: int|
            0 <= i < last && (#[trigger] outcomes.drop_last()[i]) is Send && before[k].signal.event_id
                == candidates.drop_last()[i].signal.event_id && outcomes.drop_last().take(
                i,
            ).filter(sent).len() == k;
        assert(outcomes[i] is Send);
        assert(outcomes.drop_last().take(i) =~= outcomes.take(i));
    } else {
        assert(outcomes[last] is Send);
        assert(outcomes.take(last) =~= outcomes.drop_last());
        if last > 0 {
            law_sent_candidates_are_kept(candidates.drop_last(), outcomes.drop_last(), 0);
        }
    }
}

/// The first member of an object with this name.
pub open spec fn is_first_named(members: json::MembersView, name: Seq<char>, i: int) -> bool {
    &&& 0 <= i < members.len()
    &&& members[i].0 == name
    &&& forall|k: int| 0 <= k < i ==> (#[trigger] members[k]).0 != name
}

/// The reviewing model's document sends a candidate exactly where it is an
/// object whose `send` is true and whose `text` is a text with words, and then
/// in these words. The first member of a name is the one that counts.
pub proof fn law_only_a_clear_answer_sends(members: json::MembersView, send: int, said: int)
    requires
        is_first_named(members, "send"@, send),
        is_first_named(members, "text"@, said),
    ensures
        ({
            let outcome = outcome_of_document(Ok(JsonDocumentView::Object(members)));
            let words = members[said].1;
            &&& outcome is Send <==> members[send].1 == JsonMemberView::Bool(true) && words is Text
                && !text::blank(words->Text_0)
            &&& outcome matches ReviewOutcomeView::Send(sent) ==> sent == text::trimmed(
                words->Text_0,
            )
            &&& members[send].1 != JsonMemberView::Bool(true) ==> outcome
                == ReviewOutcomeView::Drop("review gate said send=false"@)
            &&& members[send].1 == JsonMemberView::Bool(true) && !(outcome is Send) ==> outcome
                == ReviewOutcomeView::Drop("review gate returned empty text"@)
        }),
{
    json::law_first_member_is_found(members, "send"@, send);
    json::law_first_member_is_found(members, "text"@, said);
    if let JsonMemberView::Text(t) = members[said].1 {
        text::lemma_trimmed_empty(t);
    }
}

/// A document without `send`, or one that is no object, sends nothing; one
/// that says `send` without a `text` has no words to send. What is no document
/// is dropped with the parser's words.
pub proof fn law_unclear_answers_drop(
    members: json::MembersView,
    other: Seq<char>,
    error: Seq<char>,
    send: int,
)
    ensures
        (forall|k: int| 0 <= k < members.len() ==> (#[trigger] members[k]).0 != "send"@)
            ==> outcome_of_document(Ok(JsonDocumentView::Object(members)))
            == ReviewOutcomeView::Drop("review gate said send=false"@),
        is_first_named(members, "send"@, send) && members[send].1 == JsonMemberView::Bool(true) && (
        forall|k: int| 0 <= k < members.len() ==> (#[trigger] members[k]).0 != "text"@)
            ==> outcome_of_document(Ok(JsonDocumentView::Object(members)))
            == ReviewOutcomeView::Drop("review gate returned empty text"@),
        is_first_named(members, "send"@, send) && members[send].1 != JsonMemberView::Bool(true)
            ==> outcome_of_document(Ok(JsonDocumentView::Object(members)))
            == ReviewOutcomeView::Drop("review gate said send=false"@),
        outcome_of_document(Ok(JsonDocumentView::Other(other))) == ReviewOutcomeView::Drop(
            "review gate said send=false"@,
        ),
        outcome_of_document(Err(error)) == ReviewOutcomeView::Drop(
            "review JSON parse error: "@ + error,
        ),
        outcome_of_reply(Err(error)) == ReviewOutcomeView::Drop("llm review failed: "@ + error),
{
    if forall|k: int| 0 <= k < members.len() ==> (#[trigger] members[k]).0 != "send"@ {
        json::law_missing_member_is_not_found(members, "send"@);
    }
    if forall|k: int| 0 <= k < members.len() ==> (#[trigger] members[k]).0 != "text"@ {
        json::law_missing_member_is_not_found(members, "text"@);
    }
    if is_first_named(members, "send"@, send) {
        json::law_first_member_is_found(members, "send"@, send);
    }
}

/// The JSON in an answer runs from its first opening brace to its last closing
/// one, whatever the model says around it. An answer where the last closing
/// brace does not come behind an opening one has none, and drops the candidate
/// with what was said.
pub proof fn law_json_is_found_in_chatter(raw: Seq<char>, start: int, end: int)
    ensures
        ({
            let answer = text::trimmed(raw);
            0 <= start < end < answer.len() && answer[start] == '{' && answer[end] == '}' && (
            forall|k: int| 0 <= k < start ==> #[trigger] answer[k] != '{') && (forall|k: int|
                end < k < answer.len() ==> #[trigger] answer[k] != '}') ==> outcome_of(raw)
                == outcome_of_document(json::json_document(answer.subrange(start, end + 1)))
        }),
        ({
            let answer = text::trimmed(raw);
            (forall|a: int, b: int|
                0 <= a < b < answer.len() && #[trigger] answer[a] == '{' ==> #[trigger] answer[b]
                    != '}') ==> outcome_of(raw) == ReviewOutcomeView::Drop(
                "non-JSON review response: "@ + answer,
            )
        }),
        outcome_of_reply(Ok(raw)) == outcome_of(raw),
{
    let answer = text::trimmed(raw);
    let test = |c: char| c == '{';
    text::law_first_at(answer, test);
    text::law_past_last(answer, '}');
    let a = text::first_at(answer, test) as int;
    let b = text::past_last(answer, '}') as int;
    if 0 <= start < end < answer.len() && answer[start] == '{' && answer[end] == '}' && (forall|
        k: int,
    |
        0 <= k < start ==> #[trigger] answer[k] != '{') && (forall|k: int|
        end < k < answer.len() ==> #[trigger] answer[k] != '}') {
        assert(test(answer[start]));
        assert(a == start);
        assert(b == end + 1);
    }
    if braced(answer) is Some {
        assert(test(answer[a]));
        assert(answer[b - 1] == '}');
        assert(a != b - 1);
    }
}

/// The review is asked with the candidate's words under `signal`, and with the
/// recent context under `context`, or a note where that holds no words.
pub proof fn law_review_is_asked(content: Seq<char>, context: Seq<char>)
    ensures
        ({
            let variables = review_variables_of(content, context);
            &&& variables.len() == 2
            &&& json::member(variables, "signal"@) == Some(content)
            &&& !text::blank(context) ==> json::member(variables, "context"@) == Some(context)
            &&& text::blank(context) ==> json::member(variables, "context"@) == Some(
                "(no recent context)"@,
            )
        }),
{
    reveal_strlit("signal");
    reveal_strlit("context");
    assert("signal"@.len() != "context"@.len());
    let variables = review_variables_of(content, context);
    json::law_first_member_is_found(variables, "signal"@, 0);
    json::law_first_member_is_found(variables, "context"@, 1);
}

} // verus!
