//! Post titles and the starter message.

use vstd::prelude::*;

use crate::herdr::model::{Agent, SessionPath};
use crate::session;
use crate::session::Harness;
use crate::text;

verus! {

/// Discord's limit on the names of threads and channels, in characters.
pub const NAME_LIMIT: usize = 100;

/// The title for a session's forum post: herdr's stripped terminal title where it
/// is usable, otherwise the harness label plus `" session"`.
pub open spec fn titled(terminal: Option<Seq<char>>, harness: Harness) -> Seq<char> {
    match terminal {
        Some(title) => if text::is_blank(title) {
            harness.label() + " session"@
        } else {
            text::capped(text::trimmed(title), NAME_LIMIT as nat)
        },
        None => harness.label() + " session"@,
    }
}

/// Makes the title for a session's forum post: herdr's stripped terminal title
/// when usable, otherwise the harness label plus `" session"`. Truncated to
/// Discord's limit on thread names.
///
/// herdr has already removed ANSI escapes and the leading activity glyph, so the
/// title only changes when its text does.
#[must_use]
pub fn post_title(agent: &Agent, harness: Harness) -> (title: String)
    ensures
        title@ == titled(text::opt_text(agent.terminal_title_stripped), harness),
{
    match &agent.terminal_title_stripped {
        Some(title) => if text::blank(title.as_str()) {
            text::join2(harness.to_label().as_str(), " session")
        } else {
            let cleaned = text::trim(title.as_str());
            text::cap(cleaned.as_str(), NAME_LIMIT)
        },
        None => text::join2(harness.to_label().as_str(), " session"),
    }
}

/// The post title for a session: the transcript's own title where the harness
/// records one, else the title of the terminal.
pub open spec fn session_titled(
    recorded: Option<Seq<char>>,
    terminal: Option<Seq<char>>,
    harness: Harness,
) -> Seq<char> {
    match recorded {
        Some(title) => text::capped(title, NAME_LIMIT as nat),
        None => titled(terminal, harness),
    }
}

/// Makes the post title for a session: the transcript's own title when the
/// harness records one (stable — no terminal animation), else herdr's stripped
/// terminal title. Truncated to Discord's limit on thread names.
///
/// The agent name is deliberately not used — the transcript and terminal titles
/// describe the work.
#[must_use]
pub fn session_title(agent: &Agent, harness: Harness, recorded: Option<&str>) -> (title: String)
    ensures
        title@ == session_titled(
            text::opt_str(recorded),
            text::opt_text(agent.terminal_title_stripped),
            harness,
        ),
{
    match recorded {
        Some(title) => text::cap(title, NAME_LIMIT),
        None => post_title(agent, harness),
    }
}

/// Post titles fit Discord's limit on thread names.
pub proof fn a_session_title_fits_discord(
    recorded: Option<Seq<char>>,
    terminal: Option<Seq<char>>,
    harness: Harness,
)
    ensures
        session_titled(recorded, terminal, harness).len() <= NAME_LIMIT,
{
    reveal_strlit(" session");
    session::harness_labels_are_short(harness);
}

/// A character that may stand in a channel name as it is.
pub open spec fn is_name_char(c: char) -> bool {
    ('a' <= c && c <= 'z') || ('0' <= c && c <= '9')
}

/// The characters of a text that may stand in a channel name, with one dash for
/// each run of others that follows one.
pub open spec fn dashed(s: Seq<char>) -> Seq<char>
    decreases s.len(),
{
    if s.len() == 0 {
        s
    } else {
        let before = dashed(s.drop_last());
        if is_name_char(s.last()) {
            before.push(s.last())
        } else if before.len() > 0 && before.last() != '-' {
            before.push('-')
        } else {
            before
        }
    }
}

/// A text without the dashes at its end.
pub open spec fn undashed(s: Seq<char>) -> Seq<char>
    decreases s.len(),
{
    if s.len() > 0 && s.last() == '-' {
        undashed(s.drop_last())
    } else {
        s
    }
}

/// The forum channel name of a lower-case workspace label.
pub open spec fn channel_name(lowered: Seq<char>) -> Seq<char> {
    let fragment = undashed(dashed(lowered));
    if fragment.len() == 0 {
        "agents"@
    } else {
        text::capped(fragment, NAME_LIMIT as nat)
    }
}

/// Makes the forum channel name of a lower-case workspace label.
pub fn sanitized(lowered: &str) -> (name: String)
    ensures
        name@ == channel_name(lowered@),
{
    let chars = text::chars_of(lowered);
    let mut fragment: Vec<char> = Vec::new();
    let mut i: usize = 0;
    assert(lowered@.take(0) =~= Seq::<char>::empty());
    while i < chars.len()
        invariant
            i <= chars@.len(),
            chars@ == lowered@,
            fragment@ == dashed(lowered@.take(i as int)),
        decreases chars@.len() - i,
    {
        let c = chars[i];
        assert(lowered@.take(i + 1).drop_last() =~= lowered@.take(i as int));
        if ('a' <= c && c <= 'z') || ('0' <= c && c <= '9') {
            fragment.push(c);
        } else if fragment.len() > 0 && fragment[fragment.len() - 1] != '-' {
            fragment.push('-');
        }
        i += 1;
    }
    assert(lowered@.take(i as int) =~= lowered@);
    let ghost whole = undashed(fragment@);
    let mut end: usize = fragment.len();
    assert(fragment@.take(end as int) =~= fragment@);
    while end > 0 && fragment[end - 1] == '-'
        invariant
            end <= fragment@.len(),
            undashed(fragment@.take(end as int)) == whole,
        decreases end,
    {
        assert(fragment@.take(end as int).drop_last() =~= fragment@.take(end - 1));
        end -= 1;
    }
    if end == 0 {
        return text::copy("agents");
    }
    let name = text::string_of(&fragment, 0, end);
    assert(name@ =~= fragment@.take(end as int));
    text::cap(name.as_str(), NAME_LIMIT)
}

/// Channel-name-sanitizes a workspace label: lowercase `[a-z0-9-]`, truncated to
/// Discord's limit on channel names, `"agents"` when nothing usable remains.
///
/// The forum channel is named after the workspace itself.
#[must_use]
pub fn forum_channel_name(label: &str) -> (name: String)
    ensures
        name@ == channel_name(text::lowercase(label@)),
{
    let lowered = text::to_lowercase(label);
    sanitized(lowered.as_str())
}

proof fn lemma_dashed(s: Seq<char>)
    ensures
        forall|i: int|
            0 <= i < dashed(s).len() ==> is_name_char(#[trigger] dashed(s)[i]) || dashed(s)[i]
                == '-',
        dashed(s).len() > 0 ==> is_name_char(dashed(s)[0]),
    decreases s.len(),
{
    if s.len() > 0 {
        lemma_dashed(s.drop_last());
    }
}

proof fn lemma_undashed(s: Seq<char>)
    ensures
        undashed(s).len() <= s.len(),
        undashed(s) == s.take(undashed(s).len() as int),
    decreases s.len(),
{
    if s.len() > 0 && s.last() == '-' {
        lemma_undashed(s.drop_last());
        assert(s.drop_last().take(undashed(s).len() as int) =~= s.take(undashed(s).len() as int));
    } else {
        assert(s.take(s.len() as int) =~= s);
    }
}

/// A channel name is one Discord takes: it is not empty, not too long, consists
/// of lower-case letters, digits and dashes, and does not start with a dash.
pub proof fn a_channel_name_fits_discord(lowered: Seq<char>)
    ensures
        0 < channel_name(lowered).len() <= NAME_LIMIT,
        forall|i: int|
            0 <= i < channel_name(lowered).len() ==> is_name_char(#[trigger] channel_name(lowered)[i])
                || channel_name(lowered)[i] == '-',
        is_name_char(channel_name(lowered)[0]),
{
    reveal_strlit("agents");
    let all = dashed(lowered);
    lemma_dashed(lowered);
    lemma_undashed(all);
    let name = channel_name(lowered);
    if undashed(all).len() == 0 {
        assert(name == "agents"@);
        assert(name[0] == 'a' && name[1] == 'g' && name[2] == 'e' && name[3] == 'n' && name[4]
            == 't' && name[5] == 's');
    } else {
        assert forall|i: int| 0 <= i < name.len() implies is_name_char(#[trigger] name[i])
            || name[i] == '-' by {
            assert(name[i] == all[i]);
        }
        assert(name[0] == all[0]);
    }
}

/// The pane part of a starter message.
pub open spec fn pane_part(pane: Option<Seq<char>>) -> Seq<char> {
    match pane {
        Some(pane) => "`"@ + pane + "`"@,
        None => "inactive"@,
    }
}

/// The worktree part of a starter message.
pub open spec fn worktree_part(worktree: Option<Seq<char>>) -> Seq<char> {
    match worktree {
        Some(branch) => " · worktree `"@ + branch + "`"@,
        None => Seq::empty(),
    }
}

/// The starter message of a session's post.
pub open spec fn intro(
    pane: Option<Seq<char>>,
    worktree: Option<Seq<char>>,
    cwd: Seq<char>,
    session_path: Option<Seq<char>>,
) -> Seq<char> {
    let place = pane_part(pane) + worktree_part(worktree) + " · cwd `"@ + cwd;
    match session_path {
        Some(path) => place + "` · session `"@ + path + "`"@,
        None => place + "`"@,
    }
}

/// The pane of an agent, where there is one.
pub open spec fn pane_of(agent: Option<&Agent>) -> Option<Seq<char>> {
    match agent {
        Some(agent) => Some(agent.pane_id@),
        None => None,
    }
}

/// The text of a session path, where there is one.
pub open spec fn path_of(path: Option<&SessionPath>) -> Option<Seq<char>> {
    match path {
        Some(path) => Some(path@),
        None => None,
    }
}

/// Makes the session post's starter message: the pane, cwd, and session file as
/// plain text, plus the checked-out branch when the agent runs in a git worktree.
///
/// The harness and status are already on the post's tags, so the message stays on
/// one line for the channel preview. For a dead session (no live agent) the pane
/// part is the literal `inactive`.
#[must_use]
pub fn session_intro(
    agent: Option<&Agent>,
    worktree: Option<&str>,
    cwd: &str,
    session_path: Option<&SessionPath>,
) -> (message: String)
    ensures
        message@ == intro(pane_of(agent), text::opt_str(worktree), cwd@, path_of(session_path)),
{
    let pane = match agent {
        Some(agent) => text::join3("`", agent.pane_id.as_str(), "`"),
        None => text::copy("inactive"),
    };
    let worktree = match worktree {
        Some(branch) => text::join3(" · worktree `", branch, "`"),
        None => String::new(),
    };
    let place = text::join4(pane.as_str(), worktree.as_str(), " · cwd `", cwd);
    match session_path {
        Some(path) => text::join4(place.as_str(), "` · session `", path.as_str(), "`"),
        None => text::join2(place.as_str(), "`"),
    }
}

} // verus!
