//! Live browser viewport relay: which stream server a viewer is connected to,
//! and what is passed on.
//!
//! Two sources exist. `alien` is the session daemon of the vault-sealed
//! browser; it is found through session files that carry a stream port and a
//! stream token. `plain` is the stream of the public browser daemon, at a
//! fixed port. `alien` wins when both are live; the client can force one. The
//! relay itself is transparent: frames pass untouched in both directions. When
//! no source is dialable the client gets one `no_browser` status and a clean
//! close.
use vstd::prelude::*;
use vstd::string::*;

use crate::json;
use crate::json::write_json_object;
use crate::text;
use crate::text::decimal_text;
use crate::text::parse_u16;
use crate::text::same_text;

verus! {

/// The port of the plain stream unless the environment names another.
pub const DEFAULT_PLAIN_STREAM_PORT: u16 = 9223;

/// A dialable stream source.
#[derive(Debug, PartialEq)]
pub struct Source {
    pub name: &'static str,
    pub url: String,
}

/// What a [`Source`] holds.
pub struct SourceView {
    pub name: Seq<char>,
    pub url: Seq<char>,
}

impl View for Source {
    type V = SourceView;

    open spec fn view(&self) -> SourceView {
        SourceView { name: self.name@, url: self.url@ }
    }
}

/// What a session file says of its stream. Older daemons lack the stream
/// pair and are skipped.
#[derive(Debug)]
pub struct SessionFile {
    pub stream_port: Option<u16>,
    pub stream_token: Option<String>,
    pub started_at: Option<u64>,
}

/// What a [`SessionFile`] holds.
pub struct SessionFileView {
    pub stream_port: Option<u16>,
    pub stream_token: Option<Seq<char>>,
    pub started_at: Option<u64>,
}

impl View for SessionFile {
    type V = SessionFileView;

    open spec fn view(&self) -> SessionFileView {
        SessionFileView {
            stream_port: self.stream_port,
            stream_token: text::opt_view(self.stream_token),
            started_at: self.started_at,
        }
    }
}

/// Whether a file name is that of a session file: it ends in `.json` and has
/// something before that.
pub open spec fn names_session(name: Seq<char>) -> bool {
    name.len() > 5 && name.skip(name.len() - 5) == ".json"@
}

/// Whether a file name is that of a session file.
pub fn is_session_file(name: &str) -> (r: bool)
    ensures
        r == names_session(name@),
{
    let n: usize = name.unicode_len();
    if n <= 5 {
        return false;
    }
    let end = name.substring_char(n - 5, n);
    assert(end@ =~= name@.skip(name@.len() - 5));
    same_text(end, ".json")
}

/// Whether a session advertises a stream endpoint.
pub open spec fn advertises(session: SessionFileView) -> bool {
    session.stream_port is Some && session.stream_token is Some
}

/// When a session started; a session that does not say so is the oldest.
pub open spec fn start_of(session: SessionFileView) -> u64 {
    match session.started_at {
        Some(t) => t,
        None => 0,
    }
}

/// The source that a session advertises.
pub open spec fn session_source(session: SessionFileView) -> SourceView {
    SourceView {
        name: "alien"@,
        url: "ws://127.0.0.1:"@ + text::decimal(session.stream_port->0 as nat) + "/?token="@
            + session.stream_token->0,
    }
}

/// The position of the newest session that advertises a stream: the last one
/// where several started together. The number of sessions when none does.
pub open spec fn newest_session(sessions: Seq<SessionFileView>) -> nat {
    if exists|i: int| is_newest(sessions, i) {
        (choose|i: int| is_newest(sessions, i)) as nat
    } else {
        sessions.len()
    }
}

/// Whether the session at `i` is the newest that advertises a stream.
pub open spec fn is_newest(sessions: Seq<SessionFileView>, i: int) -> bool {
    &&& 0 <= i < sessions.len()
    &&& advertises(sessions[i])
    &&& forall|j: int|
        0 <= j < sessions.len() && advertises(#[trigger] sessions[j]) ==> start_of(sessions[j])
            < start_of(sessions[i]) || (start_of(sessions[j]) == start_of(sessions[i]) && j <= i)
}

proof fn lemma_newest_unique(sessions: Seq<SessionFileView>, i: int)
    requires
        is_newest(sessions, i),
    ensures
        newest_session(sessions) == i,
{
    let k = choose|k: int| is_newest(sessions, k);
    assert(is_newest(sessions, k));
    assert(advertises(sessions[i]) && advertises(sessions[k]));
}

/// The source of the newest session that advertises a stream, if one does.
pub open spec fn alien_source_of(sessions: Seq<SessionFileView>) -> Option<SourceView> {
    if newest_session(sessions) < sessions.len() {
        Some(session_source(sessions[newest_session(sessions) as int]))
    } else {
        None
    }
}

/// Newest alien session advertising a stream endpoint, if any.
pub fn alien_source(sessions: &Vec<SessionFile>) -> (r: Option<Source>)
    ensures
        text::opt_view(r) == alien_source_of(text::views(sessions@)),
{
    let ghost all = text::views(sessions@);
    let mut best: Option<usize> = None;
    let mut best_start: u64 = 0;
    let mut i: usize = 0;
    while i < sessions.len()
        invariant
            i <= sessions.len(),
            all == text::views(sessions@),
            best matches Some(b) ==> {
                &&& b < i
                &&& advertises(all[b as int])
                &&& best_start == start_of(all[b as int])
                &&& forall|j: int|
                    0 <= j < i && advertises(#[trigger] all[j]) ==> start_of(all[j]) < best_start
                        || (start_of(all[j]) == best_start && j <= b)
            },
            best is None ==> forall|j: int| 0 <= j < i ==> !advertises(#[trigger] all[j]),
        decreases sessions.len() - i,
    {
        let session = &sessions[i];
        assert(all[i as int] == session@);
        if session.stream_port.is_some() && session.stream_token.is_some() {
            let started: u64 = match session.started_at {
                Some(t) => t,
                None => 0,
            };
            if best.is_none() || started >= best_start {
                best = Some(i);
                best_start = started;
            }
        }
        i = i + 1;
    }
    match best {
        None => {
            assert(forall|k: int| !is_newest(all, k));
            None
        },
        Some(b) => {
            proof {
                assert(is_newest(all, b as int));
                lemma_newest_unique(all, b as int);
            }
            assert(all[b as int] == sessions@[b as int]@);
            match (sessions[b].stream_port, &sessions[b].stream_token) {
                (Some(port), Some(token)) => {
                    let mut url = "ws://127.0.0.1:".to_owned();
                    url.append(decimal_text(port as u64).as_str());
                    url.append("/?token=");
                    url.append(token.as_str());
                    Some(Source { name: "alien", url })
                },
                _ => None,
            }
        },
    }
}

/// The port of the plain stream, for what the environment says of it.
pub open spec fn plain_port(setting: Option<Seq<char>>) -> u16 {
    match setting {
        Some(s) => match text::unsigned_value(s) {
            Some(v) => if v <= u16::MAX {
                v as u16
            } else {
                DEFAULT_PLAIN_STREAM_PORT
            },
            None => DEFAULT_PLAIN_STREAM_PORT,
        },
        None => DEFAULT_PLAIN_STREAM_PORT,
    }
}

/// The plain source, for what the environment says of its port.
pub open spec fn plain_source_of(setting: Option<Seq<char>>) -> SourceView {
    SourceView {
        name: "plain"@,
        url: "ws://127.0.0.1:"@ + text::decimal(plain_port(setting) as nat),
    }
}

/// The view of an optional text.
pub open spec fn opt_text(t: Option<&str>) -> Option<Seq<char>> {
    match t {
        Some(t) => Some(t@),
        None => None,
    }
}

/// The plain source. `port_setting` is what the environment says of the port;
/// anything but a port number means the default.
pub fn plain_source(port_setting: Option<&str>) -> (r: Source)
    ensures
        r@ == plain_source_of(opt_text(port_setting)),
{
    let port: u16 = match port_setting {
        Some(setting) => match parse_u16(setting) {
            Some(port) => port,
            None => DEFAULT_PLAIN_STREAM_PORT,
        },
        None => DEFAULT_PLAIN_STREAM_PORT,
    };
    let mut url = "ws://127.0.0.1:".to_owned();
    url.append(decimal_text(port as u64).as_str());
    Source { name: "plain", url }
}

/// The sources to dial, in order of preference: the one that was asked for,
/// and otherwise the alien one before the plain one.
pub open spec fn candidates_of(
    requested: Option<Seq<char>>,
    sessions: Seq<SessionFileView>,
    setting: Option<Seq<char>>,
) -> Seq<SourceView> {
    let alien = match alien_source_of(sessions) {
        Some(source) => seq![source],
        None => Seq::empty(),
    };
    if requested == Some("alien"@) {
        alien
    } else if requested == Some("plain"@) {
        seq![plain_source_of(setting)]
    } else {
        alien + seq![plain_source_of(setting)]
    }
}

/// The sources to dial, in order of preference.
pub fn candidates(
    requested: Option<&str>,
    sessions: &Vec<SessionFile>,
    port_setting: Option<&str>,
) -> (r: Vec<Source>)
    ensures
        text::views(r@) == candidates_of(
            opt_text(requested),
            text::views(sessions@),
            opt_text(port_setting),
        ),
{
    let only_alien = match requested {
        Some(name) => same_text(name, "alien"),
        None => false,
    };
    let only_plain = match requested {
        Some(name) => same_text(name, "plain"),
        None => false,
    };
    proof {
        reveal_strlit("alien");
        reveal_strlit("plain");
        assert("alien"@[0] != "plain"@[0]);
    }
    let mut list: Vec<Source> = Vec::new();
    if !only_plain {
        if let Some(source) = alien_source(sessions) {
            list.push(source);
        }
    }
    if !only_alien {
        list.push(plain_source(port_setting));
    }
    assert(text::views(list@) =~= candidates_of(
        opt_text(requested),
        text::views(sessions@),
        opt_text(port_setting),
    ));
    list
}

/// The members of a status message.
pub open spec fn status_members_of(
    state: Seq<char>,
    source: Option<Seq<char>>,
) -> Seq<(Seq<char>, Seq<char>)> {
    let head = seq![("type"@, "status"@), ("state"@, state)];
    match source {
        Some(name) => head.push(("source"@, name)),
        None => head,
    }
}

/// The members of a status message.
pub fn status_members(state: &str, source: Option<&str>) -> (r: Vec<(String, String)>)
    ensures
        text::views(r@) == status_members_of(state@, opt_text(source)),
{
    let mut members: Vec<(String, String)> = Vec::new();
    members.push(("type".to_owned(), "status".to_owned()));
    members.push(("state".to_owned(), state.to_owned()));
    if let Some(source) = source {
        members.push(("source".to_owned(), source.to_owned()));
    }
    assert(text::views(members@) =~= status_members_of(state@, opt_text(source)));
    members
}

/// The status message for a viewer, as JSON text.
pub fn status_text(state: &str, source: Option<&str>) -> (r: String)
    ensures
        r@ == json::json_object_text(status_members_of(state@, opt_text(source))),
{
    let members = status_members(state, source);
    write_json_object(&members)
}

/// What a viewer connection does next.
#[derive(Debug, PartialEq)]
pub enum RelayStep {
    /// Dial the candidate at this position.
    Dial(usize),
    /// Every candidate refused: tell the viewer so and close.
    NoBrowser(String),
    /// A candidate answered: tell the viewer so and relay.
    Relay(String),
}

/// What a [`RelayStep`] holds.
pub enum RelayStepView {
    Dial(int),
    NoBrowser(Seq<char>),
    Relay(Seq<char>),
}

impl View for RelayStep {
    type V = RelayStepView;

    open spec fn view(&self) -> RelayStepView {
        match self {
            RelayStep::Dial(i) => RelayStepView::Dial(*i as int),
            RelayStep::NoBrowser(t) => RelayStepView::NoBrowser(t@),
            RelayStep::Relay(t) => RelayStepView::Relay(t@),
        }
    }
}

/// The step towards the candidate at `i`: dial it, or give up when the
/// candidates are exhausted.
pub open spec fn dial_from(sources: Seq<SourceView>, i: int) -> RelayStepView {
    if i < sources.len() {
        RelayStepView::Dial(i)
    } else {
        RelayStepView::NoBrowser(json::json_object_text(status_members_of("no_browser"@, None)))
    }
}

/// The step after the candidate at `i` was dialed.
pub open spec fn after_dial(sources: Seq<SourceView>, i: int, answered: bool) -> RelayStepView {
    if answered {
        RelayStepView::Relay(
            json::json_object_text(status_members_of("relaying"@, Some(sources[i].name))),
        )
    } else {
        dial_from(sources, i + 1)
    }
}

/// The first step of a viewer connection.
pub fn start_relay(sources: &Vec<Source>) -> (r: RelayStep)
    ensures
        r@ == dial_from(text::views(sources@), 0),
{
    if sources.len() > 0 {
        RelayStep::Dial(0)
    } else {
        RelayStep::NoBrowser(status_text("no_browser", None))
    }
}

/// The step after a candidate was dialed. A refused connection is the "not
/// browsing" signal, so the next candidate is tried.
pub fn dialed(sources: &Vec<Source>, index: usize, answered: bool) -> (r: RelayStep)
    requires
        index < sources.len(),
    ensures
        r@ == after_dial(text::views(sources@), index as int, answered),
{
    if answered {
        assert(text::views(sources@)[index as int] == sources@[index as int]@);
        RelayStep::Relay(status_text("relaying", Some(sources[index].name)))
    } else if index + 1 < sources.len() {
        RelayStep::Dial(index + 1)
    } else {
        RelayStep::NoBrowser(status_text("no_browser", None))
    }
}

/// The kinds of frames on either socket.
#[derive(Clone, Copy, Debug, PartialEq, Eq, Structural)]
pub enum FrameKind {
    Text,
    Binary,
    Ping,
    Pong,
    Close,
    /// A raw frame of the protocol below messages.
    Raw,
}

/// What is done with a frame.
#[derive(Clone, Copy, Debug, PartialEq, Eq, Structural)]
pub enum FrameStep {
    /// Pass it on, untouched.
    Forward,
    /// Leave it to the socket it came from.
    Skip,
    /// The side it came from is done, and with it the relay.
    Stop,
}

/// What is done with a frame: content passes, the end ends the relay, and
/// what belongs to the connection alone stays there.
pub open spec fn frame_step_of(kind: FrameKind) -> FrameStep {
    match kind {
        FrameKind::Text => FrameStep::Forward,
        FrameKind::Binary => FrameStep::Forward,
        FrameKind::Ping => FrameStep::Skip,
        FrameKind::Pong => FrameStep::Skip,
        FrameKind::Close => FrameStep::Stop,
        FrameKind::Raw => FrameStep::Skip,
    }
}

/// What is done with a frame.
pub fn frame_step(kind: FrameKind) -> (r: FrameStep)
    ensures
        r == frame_step_of(kind),
{
    match kind {
        FrameKind::Text => FrameStep::Forward,
        FrameKind::Binary => FrameStep::Forward,
        FrameKind::Ping => FrameStep::Skip,
        FrameKind::Pong => FrameStep::Skip,
        FrameKind::Close => FrameStep::Stop,
        FrameKind::Raw => FrameStep::Skip,
    }
}

/// Where a viewer connection ends up from `step` when the candidate at `j`
/// answers as `answers[j]` says.
pub open spec fn dialing_ends(
    sources: Seq<SourceView>,
    answers: Seq<bool>,
    step: RelayStepView,
) -> RelayStepView
    decreases
            match step {
                RelayStepView::Dial(i) => sources.len() - i,
                _ => 0int,
            },
{
    match step {
        RelayStepView::Dial(i) => if 0 <= i < sources.len() {
            dialing_ends(sources, answers, after_dial(sources, i, answers[i]))
        } else {
            step
        },
        _ => step,
    }
}

/// Without a wish of the client, `alien` wins when both are live: it is tried
/// first, and the plain source is tried last.
pub proof fn law_alien_is_preferred(
    sessions: Seq<SessionFileView>,
    setting: Option<Seq<char>>,
    requested: Option<Seq<char>>,
)
    requires
        requested != Some("alien"@),
        requested != Some("plain"@),
    ensures
        ({
            let list = candidates_of(requested, sessions, setting);
            &&& list.len() > 0
            &&& list.last() == plain_source_of(setting)
            &&& alien_source_of(sessions) matches Some(alien) ==> list == seq![
                alien,
                plain_source_of(setting),
            ]
            &&& alien_source_of(sessions) is None ==> list == seq![plain_source_of(setting)]
        }),
{
    let list = candidates_of(requested, sessions, setting);
    if let Some(alien) = alien_source_of(sessions) {
        assert(list =~= seq![alien, plain_source_of(setting)]);
    } else {
        assert(list =~= seq![plain_source_of(setting)]);
    }
}

/// A client that forces a source gets that source or none.
pub proof fn law_forced_source(sessions: Seq<SessionFileView>, setting: Option<Seq<char>>)
    ensures
        forall|i: int|
            0 <= i < candidates_of(Some("alien"@), sessions, setting).len() ==> (
            #[trigger] candidates_of(Some("alien"@), sessions, setting)[i]).name == "alien"@,
        candidates_of(Some("plain"@), sessions, setting) == seq![plain_source_of(setting)],
{
    reveal_strlit("alien");
    reveal_strlit("plain");
    assert("alien"@[0] != "plain"@[0]);
}

/// Among the sessions that advertise a stream, none is newer than the one
/// that is taken; a session without a port or a token is never taken.
pub proof fn law_newest_session_wins(sessions: Seq<SessionFileView>)
    ensures
        newest_session(sessions) <= sessions.len(),
        newest_session(sessions) < sessions.len() ==> {
            let best = sessions[newest_session(sessions) as int];
            &&& advertises(best)
            &&& forall|j: int|
                0 <= j < sessions.len() && advertises(#[trigger] sessions[j]) ==> start_of(
                    sessions[j],
                ) <= start_of(best)
        },
        newest_session(sessions) == sessions.len() ==> forall|j: int|
            0 <= j < sessions.len() ==> !advertises(#[trigger] sessions[j]),
    decreases sessions.len(),
{
    if exists|i: int| is_newest(sessions, i) {
        let i = choose|i: int| is_newest(sessions, i);
        assert(is_newest(sessions, i));
    } else {
        assert forall|j: int| 0 <= j < sessions.len() implies !advertises(
            #[trigger] sessions[j],
        ) by {
            if advertises(sessions[j]) {
                let k = lemma_newest_exists(sessions, j);
                assert(is_newest(sessions, k));
            }
        }
    }
}

proof fn lemma_newest_exists(sessions: Seq<SessionFileView>, j: int) -> (k: int)
    requires
        0 <= j < sessions.len(),
        advertises(sessions[j]),
    ensures
        is_newest(sessions, k),
    decreases sessions.len(),
{
    let rest = sessions.drop_last();
    let last = sessions.len() - 1;
    if exists|m: int| 0 <= m < rest.len() && advertises(#[trigger] rest[m]) {
        let m = choose|m: int| 0 <= m < rest.len() && advertises(#[trigger] rest[m]);
        let k = lemma_newest_exists(rest, m);
        assert(rest[k] == sessions[k]);
        assert forall|a: int|
            0 <= a < sessions.len() && advertises(#[trigger] sessions[a]) && a != last implies (
        start_of(sessions[a]) < start_of(sessions[k]) || (start_of(sessions[a]) == start_of(
            sessions[k],
        ) && a <= k)) by {
            assert(rest[a] == sessions[a]);
        }
        if advertises(sessions[last]) && start_of(sessions[last]) >= start_of(sessions[k]) {
            assert(is_newest(sessions, last));
            last
        } else {
            assert(is_newest(sessions, k));
            k
        }
    } else {
        assert forall|a: int|
            0 <= a < sessions.len() && advertises(#[trigger] sessions[a]) implies a == last by {
            if a < last {
                assert(rest[a] == sessions[a]);
            }
        }
        assert(is_newest(sessions, last));
        last
    }
}

/// The first candidate that answers is the one relayed; the viewer is told
/// `no_browser` exactly when none answers.
pub proof fn law_first_answer_wins(sources: Seq<SourceView>, answers: Seq<bool>, k: int)
    requires
        answers.len() == sources.len(),
        0 <= k <= sources.len(),
        forall|j: int| 0 <= j < k ==> !#[trigger] answers[j],
        k < sources.len() ==> answers[k],
    ensures
        dialing_ends(sources, answers, dial_from(sources, 0)) == if k < sources.len() {
            after_dial(sources, k, true)
        } else {
            dial_from(sources, k)
        },
{
    lemma_dialing(sources, answers, 0, k);
}

proof fn lemma_dialing(sources: Seq<SourceView>, answers: Seq<bool>, i: int, k: int)
    requires
        answers.len() == sources.len(),
        0 <= i <= k <= sources.len(),
        forall|j: int| 0 <= j < k ==> !#[trigger] answers[j],
        k < sources.len() ==> answers[k],
    ensures
        dialing_ends(sources, answers, dial_from(sources, i)) == if k < sources.len() {
            after_dial(sources, k, true)
        } else {
            dial_from(sources, k)
        },
    decreases k - i,
{
    reveal_with_fuel(dialing_ends, 2);
    if i < k {
        lemma_dialing(sources, answers, i + 1, k);
    }
}

} // verus!
