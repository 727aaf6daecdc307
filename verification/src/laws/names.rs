//! Laws of names, labels and messages to the user.

use vstd::prelude::*;

use crate::acp::protocol::ListedSession;
use crate::commands::choices;
use crate::discord::forum::ForumTag;
use crate::error::BotError;
use crate::forum::tags;
use crate::forum::titles;
use crate::herdr::error::HerdrError;
use crate::herdr::model;
use crate::herdr::model::AgentStatus;
use crate::ids;
use crate::ids::{ForumTagId, GenericChannelId};
use crate::laws::forums;
use crate::laws::tools;
use crate::numbers;
use crate::session::Harness;
use crate::text;

verus! {

/// Small letters and digits.
pub open spec fn is_plain(c: char) -> bool {
    'a' <= c <= 'z' || '0' <= c <= '9'
}

/// A text of small letters and digits.
pub open spec fn all_plain(s: Seq<char>) -> bool {
    forall|i: int| 0 <= i < s.len() ==> is_plain(#[trigger] s[i])
}

/// A text without small letters and digits.
pub open spec fn none_plain(s: Seq<char>) -> bool {
    forall|i: int| 0 <= i < s.len() ==> !is_plain(#[trigger] s[i])
}

/// The small letters and digits of a text.
pub open spec fn plain_part(s: Seq<char>) -> Seq<char>
    decreases s.len(),
{
    if s.len() == 0 {
        s
    } else if is_plain(s.last()) {
        plain_part(s.drop_last()).push(s.last())
    } else {
        plain_part(s.drop_last())
    }
}

proof fn lemma_dashed_keeps(s: Seq<char>)
    ensures
        plain_part(titles::dashed(s)) == plain_part(s),
    decreases s.len(),
{
    if s.len() > 0 {
        lemma_dashed_keeps(s.drop_last());
        let before = titles::dashed(s.drop_last());
        let all = titles::dashed(s);
        if all.len() > before.len() {
            assert(all.drop_last() =~= before);
        }
    }
}

proof fn lemma_undashed_keeps(s: Seq<char>)
    ensures
        plain_part(titles::undashed(s)) == plain_part(s),
        titles::undashed(s).len() > 0 ==> titles::undashed(s).last() != '-',
    decreases s.len(),
{
    if s.len() > 0 && s.last() == '-' {
        lemma_undashed_keeps(s.drop_last());
    }
}

proof fn lemma_plain_none(s: Seq<char>)
    ensures
        none_plain(s) ==> plain_part(s).len() == 0,
        plain_part(s).len() == 0 ==> none_plain(s),
    decreases s.len(),
{
    if s.len() > 0 {
        lemma_plain_none(s.drop_last());
        if none_plain(s) {
            assert(!is_plain(s[s.len() - 1]));
            assert forall|i: int| 0 <= i < s.drop_last().len() implies !is_plain(
                #[trigger] s.drop_last()[i],
            ) by {
                assert(!is_plain(s[i]));
            }
        }
        if plain_part(s).len() == 0 {
            assert forall|i: int| 0 <= i < s.len() implies !is_plain(#[trigger] s[i]) by {
                if i < s.len() - 1 {
                    assert(s.drop_last()[i] == s[i]);
                }
            }
        }
    }
}

proof fn lemma_dashed_apart(s: Seq<char>)
    ensures
        forall|i: int|
            0 < i < titles::dashed(s).len() ==> !(#[trigger] titles::dashed(s)[i] == '-'
                && titles::dashed(s)[i - 1] == '-'),
        titles::dashed(s).len() > 0 ==> titles::dashed(s)[0] != '-',
    decreases s.len(),
{
    if s.len() > 0 {
        lemma_dashed_apart(s.drop_last());
        let before = titles::dashed(s.drop_last());
        let all = titles::dashed(s);
        assert forall|i: int| 0 < i < all.len() implies !(#[trigger] all[i] == '-' && all[i - 1]
            == '-') by {
            if i < before.len() {
                assert(all[i] == before[i]);
                assert(all[i - 1] == before[i - 1]);
            } else {
                assert(all[i - 1] == before.last());
            }
        }
    }
}

proof fn lemma_undashed_prefix(s: Seq<char>)
    ensures
        titles::undashed(s).len() <= s.len(),
        titles::undashed(s) == s.take(titles::undashed(s).len() as int),
    decreases s.len(),
{
    if s.len() > 0 && s.last() == '-' {
        lemma_undashed_prefix(s.drop_last());
    } else {
        assert(s.take(s.len() as int) =~= s);
    }
}

/// The name of a forum keeps the small letters and digits of what it is made of, in
/// their order and up to the limit of a name, and no two dashes follow each other in it.
/// Where there are none it is a fixed name.
pub proof fn a_forum_name_keeps_letters_and_digits(lowered: Seq<char>)
    ensures
        none_plain(lowered) ==> titles::channel_name(lowered) == "agents"@,
        !none_plain(lowered) ==> ({
            let name = titles::channel_name(lowered);
            &&& name.len() <= 100
            &&& name.len() < 100 ==> plain_part(name) == plain_part(lowered) && name.last() != '-'
            &&& forall|i: int|
                0 < i < name.len() ==> !(#[trigger] name[i] == '-' && name[i - 1] == '-')
            &&& name[0] != '-'
        }),
{
    let dashed = titles::dashed(lowered);
    let fragment = titles::undashed(dashed);
    lemma_dashed_keeps(lowered);
    lemma_undashed_keeps(dashed);
    lemma_undashed_prefix(dashed);
    lemma_dashed_apart(lowered);
    lemma_plain_none(lowered);
    lemma_plain_none(fragment);
    lemma_first_plain(lowered);
    if none_plain(lowered) {
        if fragment.len() > 0 {
            assert(fragment[0] == dashed[0]);
            assert(is_plain(fragment[0]));
        }
    } else {
        if fragment.len() == 0 {
            assert(none_plain(fragment));
        }
        let name = titles::channel_name(lowered);
        assert forall|i: int| 0 < i < name.len() implies !(#[trigger] name[i] == '-' && name[i - 1]
            == '-') by {
            assert(name[i] == dashed[i]);
            assert(name[i - 1] == dashed[i - 1]);
        }
        assert(name[0] == dashed[0]);
    }
}

proof fn lemma_first_plain(s: Seq<char>)
    ensures
        titles::dashed(s).len() > 0 ==> is_plain(titles::dashed(s)[0]),
    decreases s.len(),
{
    if s.len() > 0 {
        lemma_first_plain(s.drop_last());
    }
}

proof fn lemma_dashed_tail(head: Seq<char>, tail: Seq<char>)
    requires
        all_plain(tail),
    ensures
        titles::dashed(head + tail) == titles::dashed(head) + tail,
    decreases tail.len(),
{
    if tail.len() == 0 {
        assert(head + tail =~= head);
        assert(titles::dashed(head) + tail =~= titles::dashed(head));
    } else {
        let last = tail.drop_last();
        assert forall|i: int| 0 <= i < last.len() implies is_plain(#[trigger] last[i]) by {
            assert(is_plain(tail[i]));
        }
        lemma_dashed_tail(head, last);
        assert((head + tail).drop_last() =~= head + last);
        assert(is_plain(tail[tail.len() - 1]));
        assert(titles::dashed(head + last).push(tail.last()) =~= titles::dashed(head) + tail);
    }
}

proof fn lemma_dashed_gap(head: Seq<char>, gap: Seq<char>)
    requires
        titles::dashed(head).len() > 0,
        titles::dashed(head).last() != '-',
        none_plain(gap),
        gap.len() > 0,
    ensures
        titles::dashed(head + gap) == titles::dashed(head).push('-'),
    decreases gap.len(),
{
    let less = gap.drop_last();
    assert((head + gap).drop_last() =~= head + less);
    assert(!is_plain(gap[gap.len() - 1]));
    if less.len() == 0 {
        assert(head + less =~= head);
    } else {
        assert forall|i: int| 0 <= i < less.len() implies !is_plain(#[trigger] less[i]) by {
            assert(!is_plain(gap[i]));
        }
        lemma_dashed_gap(head, less);
    }
}

/// Two words become one name with a dash between them, whatever stands between them.
pub proof fn a_dash_stands_between_words(first: Seq<char>, gap: Seq<char>, second: Seq<char>)
    requires
        all_plain(first),
        all_plain(second),
        none_plain(gap),
        first.len() > 0,
        gap.len() > 0,
        second.len() > 0,
        first.len() + second.len() < 100,
    ensures
        titles::channel_name(first) == first,
        titles::channel_name(first + gap + second) == first.push('-') + second,
{
    let empty = Seq::<char>::empty();
    lemma_dashed_tail(empty, first);
    assert(empty + first =~= first);
    assert(titles::dashed(empty) + first =~= first);
    assert(is_plain(first[first.len() - 1]));
    lemma_dashed_gap(first, gap);
    lemma_dashed_tail(first + gap, second);
    assert(is_plain(second[second.len() - 1]));
    assert((first.push('-') + second).last() == second.last());
}

/// A channel is mentioned by its number, which can be read back.
pub proof fn a_mention_names_its_channel(channel: GenericChannelId)
    ensures
        ({
            let mention = ids::mention_of(channel);
            &&& mention.len() > 3
            &&& mention[0] == '<' && mention[1] == '#' && mention.last() == '>'
            &&& numbers::unsigned_in(
                mention.subrange(2, mention.len() - 1),
                0xffff_ffff_ffff_ffff,
            ) == Some(channel.0 as nat)
        }),
{
    let digits = numbers::decimal(channel.0 as nat);
    numbers::lemma_decimal_digits(channel.0 as nat);
    numbers::decimal_reads_back(channel.0 as nat, 0xffff_ffff_ffff_ffff);
    reveal_strlit("<#");
    reveal_strlit(">");
    let mention = ids::mention_of(channel);
    assert(mention.subrange(2, mention.len() - 1) =~= digits);
}

/// A listed session is labelled by its title, or by the start of its identifier.
pub proof fn a_session_is_labelled_by_its_title(session: ListedSession)
    ensures
        match session.title {
            Some(title) if !text::is_blank(title@) => {
                &&& title@.len() <= 100 ==> choices::session_label(session) == title@
                &&& title@.len() > 100 ==> choices::session_label(session) == title@.take(99).push(
                    '…',
                )
            },
            _ => {
                &&& session.session_id@.len() <= 16 ==> choices::session_label(session)
                    == "session "@ + session.session_id@
                &&& session.session_id@.len() > 16 ==> choices::session_label(session)
                    == "session "@ + session.session_id@.take(15).push('…')
            },
        },
{
}

/// The name of a tag is that of a tag with its identifier, and each tag that is there
/// has one.
pub proof fn a_tag_is_named_by_its_identifier(all: Seq<ForumTag>, id: ForumTagId)
    ensures
        match tags::name_of_tag(all, id) {
            Some(name) => exists|i: int|
                0 <= i < all.len() && (#[trigger] all[i]).id == id && all[i].name@ == name,
            None => forall|i: int| 0 <= i < all.len() ==> (#[trigger] all[i]).id != id,
        },
{
    forums::lemma_last_where(all, tags::has_tag_id(id));
    let at = crate::seqs::last_where(all, tags::has_tag_id(id));
    if at >= 0 {
        assert(tags::has_tag_id(id)(all[at]));
    } else {
        assert forall|i: int| 0 <= i < all.len() implies (#[trigger] all[i]).id != id by {
            assert(!tags::has_tag_id(id)(all[i]));
        }
    }
}

/// What an error is about.
pub open spec fn subject(error: BotError) -> Option<Seq<char>> {
    match error {
        BotError::Config(message) => Some(message@),
        BotError::InvalidRequest(message) => Some(message@),
        BotError::Other(message) => Some(message@),
        BotError::MissingForumTag { agent_key } => Some(agent_key@),
        BotError::ForumChannelRequired { channel } => Some(channel@),
        BotError::RelativeProjectPath { path } => Some(path@),
        BotError::InvalidStoredDiscordId { value, .. } => Some(value@),
        BotError::ProjectPathResolution { path, .. } => Some(path@),
        BotError::ProjectNotDirectory { path } => Some(path@),
        BotError::UnknownAgent { key } => Some(key@),
        BotError::NotSession { thread } => Some(ids::mention_of(thread)),
        BotError::AlreadyImported { thread } => Some(ids::mention_of(thread)),
        BotError::NonAbsoluteProjectPath { path } => Some(path@),
        BotError::SessionNotFound { session_id } => Some(session_id@),
        BotError::AcpProtocol(message) => Some(message@),
        BotError::ProjectionDeserialize { context, .. } => Some(context@),
        BotError::ProjectionSerialize { context, .. } => Some(context@),
        _ => None,
    }
}

/// The message of an error names what the error is about.
pub proof fn an_error_names_its_subject(error: BotError)
    ensures
        subject(error) matches Some(named) ==> text::contains(error.text(), named),
{
    if let Some(named) = subject(error) {
        let whole = error.text();
        let (before, after) = match error {
            BotError::Config(_) | BotError::InvalidRequest(_) | BotError::Other(_) => (
                Seq::empty(),
                Seq::empty(),
            ),
            BotError::MissingForumTag { .. } => ("missing forum tag for `"@, "`"@),
            BotError::ForumChannelRequired { .. } => ("discord channel `"@, "` is not a forum"@),
            BotError::RelativeProjectPath { .. } => ("acp project path `"@, "` must be absolute"@),
            BotError::InvalidStoredDiscordId { source, .. } => (
                "invalid stored discord id `"@,
                "`: "@ + source.text(),
            ),
            BotError::ProjectPathResolution { description, cause, .. } => (
                "could not resolve "@ + description@ + " `"@,
                "`: "@ + cause@,
            ),
            BotError::ProjectNotDirectory { .. } => ("project path `"@, "` is not a directory"@),
            BotError::UnknownAgent { .. } => ("unknown agent `"@, "`"@),
            BotError::NotSession { .. } => ("this is not an acp session in thread "@, Seq::empty()),
            BotError::AlreadyImported { .. } => (
                "this session is already imported in thread "@,
                Seq::empty(),
            ),
            BotError::NonAbsoluteProjectPath { .. } => (
                "agent reported a non-absolute project path `"@,
                "`"@,
            ),
            BotError::SessionNotFound { .. } => ("agent does not know session `"@, "`"@),
            BotError::AcpProtocol(_) => ("acp error: "@, Seq::empty()),
            BotError::ProjectionDeserialize { .. } => (
                "projection "@,
                " could not be decoded: "@,
            ),
            _ => ("projection "@, " could not be encoded: "@),
        };
        assert(before + named + after =~= whole);
        tools::lemma_contains(before, named, after);
    }
}

/// The message of an error of the server holds its code and what the server said.
pub proof fn a_server_error_tells_code_and_message(error: HerdrError)
    ensures
        error matches HerdrError::Herdr { code, message } ==> text::contains(error.text(), code@)
            && text::ends_with(error.text(), message@),
        error matches HerdrError::Io(cause) ==> text::ends_with(error.text(), cause@),
{
    match error {
        HerdrError::Herdr { code, message } => {
            let shown = error.text();
            tools::lemma_contains("herdr server error "@, code@, ": "@ + message@);
            assert("herdr server error "@ + code@ + (": "@ + message@) =~= shown);
            assert(shown.skip(shown.len() - message@.len()) =~= message@);
        },
        HerdrError::Io(cause) => {
            let shown = error.text();
            assert(shown.skip(shown.len() - cause@.len()) =~= cause@);
        },
        _ => {},
    }
}

/// A status is read by its name, whatever the case, and any other text is read as an
/// unknown one.
pub proof fn a_status_is_read_by_its_name(raw: Seq<char>, status: AgentStatus)
    requires
        model::is_status(raw, status),
    ensures
        text::ascii_lowered(raw) == "idle"@ <==> status is Idle,
        text::ascii_lowered(raw) == "working"@ <==> status is Working,
        text::ascii_lowered(raw) == "blocked"@ <==> status is Blocked,
        text::ascii_lowered(raw) == "done"@ <==> status is Done,
{
    assert(AgentStatus::Idle.name() == "idle"@);
    assert(AgentStatus::Working.name() == "working"@);
    assert(AgentStatus::Blocked.name() == "blocked"@);
    assert(AgentStatus::Done.name() == "done"@);
    reveal_strlit("idle");
    reveal_strlit("working");
    reveal_strlit("blocked");
    reveal_strlit("done");
    reveal_strlit("unknown");
    assert("idle"@[0] == 'i' && "working"@[0] == 'w' && "blocked"@[0] == 'b' && "done"@[0] == 'd'
        && "unknown"@[0] == 'u');
}

/// Each harness bears its own name.
pub proof fn a_harness_bears_its_name(harness: Harness)
    ensures
        harness.name() == match harness {
            Harness::Omp => "Omp"@,
            Harness::ClaudeCode => "ClaudeCode"@,
            Harness::Codex => "Codex"@,
            Harness::Pi => "Pi"@,
            Harness::Opencode => "Opencode"@,
        },
        Harness::every().contains(harness),
{
    let all = Harness::every();
    assert(all[0] is Omp && all[1] is ClaudeCode && all[2] is Codex && all[3] is Pi && all[4]
        is Opencode);
    let at: int = match harness {
        Harness::Omp => 0,
        Harness::ClaudeCode => 1,
        Harness::Codex => 2,
        Harness::Pi => 3,
        Harness::Opencode => 4,
    };
    assert(all[at] == harness);
}

/// A number that cannot be read is told to be empty exactly where there is no text, and
/// to hold another character only where it does.
pub proof fn an_unread_number_tells_why(s: Seq<char>)
    ensures
        numbers::read_of(s) matches Err(reason) ==> (reason.text()
            == "cannot parse integer from empty string"@ <==> s.len() == 0),
        numbers::read_of(s) matches Err(reason) ==> (reason.text()
            == "invalid digit found in string"@ ==> exists|i: int|
            0 <= i < s.len() && !('0' <= #[trigger] s[i] && s[i] <= '9')),
        s.len() > 0 && s.len() <= 19 && (forall|i: int|
            0 <= i < s.len() ==> '0' <= #[trigger] s[i] && s[i] <= '9') ==> !(numbers::read_of(
            s,
        ) matches Err(reason) && reason.text() == "invalid digit found in string"@),
{
    reveal_strlit("cannot parse integer from empty string");
    reveal_strlit("invalid digit found in string");
    reveal_strlit("number too large to fit in target type");
    assert("cannot parse integer from empty string"@[0] == 'c'
        && "invalid digit found in string"@[0] == 'i'
        && "number too large to fit in target type"@[0] == 'n');
    if s.len() > 0 && (forall|i: int| 0 <= i < s.len() ==> '0' <= #[trigger] s[i] && s[i] <= '9') {
        assert(s[0] != '+');
        assert(numbers::is_digits(s));
    }
}

/// The errors without a subject tell what is wrong.
pub proof fn an_error_tells_what_is_wrong(error: BotError)
    ensures
        match error {
            BotError::ForumChannelNotFound => error.text() == "forum channel not found"@,
            BotError::ProjectionTooLarge => error.text()
                == "render projection contains too many messages"@,
            BotError::HomeDirectoryUnavailable => error.text()
                == "could not determine home directory"@,
            BotError::EmptySessionId => error.text() == "the session id is empty"@,
            BotError::AcpQueueFull => error.text() == "the acp prompt queue is full"@,
            BotError::AcpActorExited => error.text() == "the acp session actor has exited"@,
            BotError::AcpActorStopTimedOut => error.text() == "acp session actor stop timed out"@,
            BotError::AcpModelSelectionTimedOut => error.text() == "acp model selection timed out"@,
            BotError::AcpReloadTimedOut => error.text() == "acp session reload timed out"@,
            BotError::DiscordNotReady => error.text() == "discord is not ready"@,
            BotError::ProjectionStateNotObject => error.text()
                == "projection state must contain a json object"@,
            _ => true,
        },
{
}

} // verus!
