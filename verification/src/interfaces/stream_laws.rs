//! Which stream a viewer gets, told from the sessions, the settings and the
//! answers.
use vstd::prelude::*;

use crate::interfaces::browser_stream as stream;
use crate::interfaces::browser_stream::FrameKind;
use crate::interfaces::browser_stream::FrameStep;
use crate::interfaces::browser_stream::RelayStepView;
use crate::interfaces::browser_stream::SessionFileView;
use crate::interfaces::browser_stream::SourceView;
use crate::json;
use crate::text;

verus! {

/// A session file is one whose name has something before a final `.json`.
pub proof fn law_session_files_end_in_json(stem: Seq<char>, name: Seq<char>)
    ensures
        stream::names_session(stem + ".json"@) <==> stem.len() > 0,
        stream::names_session(name) ==> name == name.take(name.len() - 5) + ".json"@ && name.len()
            > 5,
{
    reveal_strlit(".json");
    let whole = stem + ".json"@;
    assert(whole.skip(whole.len() - 5) =~= ".json"@);
    if stream::names_session(name) {
        assert(name =~= name.take(name.len() - 5) + name.skip(name.len() - 5));
    }
}

/// When a session says that it started; the beginning of time where it does not
/// say.
pub open spec fn started(session: SessionFileView) -> int {
    if session.started_at is Some {
        session.started_at->0 as int
    } else {
        0
    }
}

/// The alien stream is that of the session that started last, among those that
/// have both a port and a token, and the one listed last where several started
/// together. Its address is local, with the session's port and token.
pub proof fn law_last_session_is_the_alien_stream(sessions: Seq<SessionFileView>, i: int)
    requires
        0 <= i < sessions.len(),
        sessions[i].stream_port is Some,
        sessions[i].stream_token is Some,
        forall|j: int|
            0 <= j < sessions.len() && j != i && (#[trigger] sessions[j]).stream_port is Some
                && sessions[j].stream_token is Some ==> started(sessions[j]) < started(sessions[i])
                || (started(sessions[j]) == started(sessions[i]) && j < i),
    ensures
        stream::alien_source_of(sessions) matches Some(source) && source.name == "alien"@
            && source.url == "ws://127.0.0.1:"@ + text::decimal(sessions[i].stream_port->0 as nat)
            + "/?token="@ + sessions[i].stream_token->0,
{
    assert(stream::is_newest(sessions, i)) by {
        assert forall|j: int|
            0 <= j < sessions.len() && stream::advertises(
                #[trigger] sessions[j],
            ) implies stream::start_of(sessions[j]) < stream::start_of(sessions[i]) || (
        stream::start_of(sessions[j]) == stream::start_of(sessions[i]) && j <= i) by {
            if j != i {
                assert(sessions[j].stream_port is Some && sessions[j].stream_token is Some);
            }
        }
    }
    let k = choose|k: int| stream::is_newest(sessions, k);
    assert(stream::is_newest(sessions, k));
    assert(stream::advertises(sessions[i]) && stream::advertises(sessions[k]));
    assert(k == i);
}

/// There is no alien stream exactly where no session has both a port and a
/// token.
pub proof fn law_no_session_no_alien_stream(sessions: Seq<SessionFileView>)
    ensures
        stream::alien_source_of(sessions) is None <==> forall|j: int|
            0 <= j < sessions.len() ==> (#[trigger] sessions[j]).stream_port is None
                || sessions[j].stream_token is None,
{
    stream::law_newest_session_wins(sessions);
    if stream::alien_source_of(sessions) is None {
        assert forall|j: int| 0 <= j < sessions.len() implies (
        #[trigger] sessions[j]).stream_port is None || sessions[j].stream_token is None by {
            assert(!stream::advertises(sessions[j]));
        }
    }
}

/// The plain stream is local, at the port that the environment names, and at
/// port 9223 where it names none: no setting, no number, or too large a one.
pub proof fn law_plain_stream_has_its_port(setting: Option<Seq<char>>, port: u16)
    ensures
        stream::plain_source_of(setting).name == "plain"@,
        stream::plain_source_of(setting).url == "ws://127.0.0.1:"@ + text::decimal(
            stream::plain_port(setting) as nat,
        ),
        stream::plain_port(Some(text::decimal(port as nat))) == port,
        stream::plain_port(None) == 9223,
        setting matches Some(s) ==> (text::unsigned_value(s) is None ==> stream::plain_port(setting)
            == 9223),
        setting matches Some(s) ==> (text::unsigned_value(s) matches Some(v) ==> (v > u16::MAX
            ==> stream::plain_port(setting) == 9223)),
        setting matches Some(s) ==> (text::unsigned_value(s) matches Some(v) ==> (v <= u16::MAX
            ==> stream::plain_port(setting) == v)),
{
    text::laws::law_numbers_read_back(port as nat);
}

/// A client that asks for the alien stream gets it alone, or none where there is
/// none; one that asks for the plain stream gets that alone. Any other client
/// gets the alien stream first, where there is one, and then the plain one.
pub proof fn law_client_gets_what_it_asks_for(
    requested: Option<Seq<char>>,
    sessions: Seq<SessionFileView>,
    setting: Option<Seq<char>>,
)
    ensures
        ({
            let list = stream::candidates_of(requested, sessions, setting);
            let alien = stream::alien_source_of(sessions);
            let plain = stream::plain_source_of(setting);
            let forced = requested == Some("alien"@) || requested == Some("plain"@);
            &&& requested == Some("alien"@) && alien is Some ==> list == seq![alien->0]
            &&& requested == Some("alien"@) && alien is None ==> list.len() == 0
            &&& requested == Some("plain"@) ==> list == seq![plain]
            &&& !forced && alien is Some ==> list == seq![alien->0, plain]
            &&& !forced && alien is None ==> list == seq![plain]
        }),
{
    reveal_strlit("alien");
    reveal_strlit("plain");
    assert("alien"@[0] != "plain"@[0]);
    let list = stream::candidates_of(requested, sessions, setting);
    let plain = stream::plain_source_of(setting);
    if let Some(alien) = stream::alien_source_of(sessions) {
        assert(seq![alien] + seq![plain] =~= seq![alien, plain]);
    } else {
        assert(Seq::<SourceView>::empty() + seq![plain] =~= seq![plain]);
    }
}

/// A status message says that it is one, which state it is, and which source it
/// is about where it is about one.
pub proof fn law_status_says_its_state(state: Seq<char>, source: Option<Seq<char>>)
    ensures
        ({
            let members = stream::status_members_of(state, source);
            &&& members.len() == if source is Some {
                3int
            } else {
                2
            }
            &&& members[0] == ("type"@, "status"@)
            &&& members[1] == ("state"@, state)
            &&& source matches Some(name) ==> members[2] == ("source"@, name)
        }),
{
}

/// Candidates are dialed one after the other from the first on. The first that
/// answers is relayed, and the viewer is told its name; behind the last that did
/// not, the viewer is told that there is no browser.
pub proof fn law_candidates_are_dialed_in_turn(sources: Seq<SourceView>, i: int)
    requires
        0 <= i < sources.len(),
    ensures
        stream::dial_from(sources, 0) == RelayStepView::Dial(0),
        i + 1 < sources.len() ==> stream::after_dial(sources, i, false) == RelayStepView::Dial(
            i + 1,
        ),
        i + 1 == sources.len() ==> stream::after_dial(sources, i, false)
            == RelayStepView::NoBrowser(
            json::json_object_text(seq![("type"@, "status"@), ("state"@, "no_browser"@)]),
        ),
        stream::after_dial(sources, i, true) == RelayStepView::Relay(
            json::json_object_text(
                seq![
                    ("type"@, "status"@),
                    ("state"@, "relaying"@),
                    ("source"@, sources[i].name),
                ],
            ),
        ),
        stream::dial_from(Seq::empty(), 0) == RelayStepView::NoBrowser(
            json::json_object_text(seq![("type"@, "status"@), ("state"@, "no_browser"@)]),
        ),
{
    assert(stream::status_members_of("relaying"@, Some(sources[i].name)) =~= seq![
        ("type"@, "status"@),
        ("state"@, "relaying"@),
        ("source"@, sources[i].name),
    ]);
}

/// Content passes in both directions, an end ends the relay, and what belongs to
/// one connection stays there.
pub proof fn law_content_passes(kind: FrameKind)
    ensures
        stream::frame_step_of(kind) == FrameStep::Forward <==> (kind == FrameKind::Text || kind
            == FrameKind::Binary),
        stream::frame_step_of(kind) == FrameStep::Stop <==> kind == FrameKind::Close,
{
}

} // verus!
