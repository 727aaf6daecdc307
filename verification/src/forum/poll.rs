//! Transcript polling: a fixed-tick pass that mirrors every live session's
//! transcript and probes for transcript rotations.

use vstd::prelude::*;

use crate::config::TimeSpan;
use crate::db::model::{SessionRow, SessionRowView};
use crate::forum::events;
use crate::forum::{Forum, ForumView, Stamp};
use crate::herdr::model::Agent;
use crate::paths;
use crate::text;

verus! {

/// How many seconds a tracked transcript must stay unchanged before the poll
/// suspects that the session rotated to a new file.
pub const SESSION_STALE_GRACE: u64 = 300;

impl Forum {
    /// Records the stamp of a session's transcript, and decides whether the
    /// transcript is mirrored: an unchanged file is not. An unknown stamp mirrors,
    /// to be safe.
    pub fn poll_once(&mut self, session_path: &str, stamp: Option<Stamp>) -> (mirrors: bool)
        ensures
            mirrors == !(stamp is Some && old(self)@.stamps.get(session_path@) == stamp),
            final(self)@ == match stamp {
                Some(stamp) => ForumView {
                    stamps: old(self)@.stamps.insert(session_path@, stamp),
                    ..old(self)@
                },
                None => old(self)@,
            },
    {
        match stamp {
            Some(stamp) => {
                let unchanged = match self.stamp(session_path) {
                    Some(known) => known == stamp,
                    None => false,
                };
                self.set_stamp(session_path, stamp);
                !unchanged
            },
            None => true,
        }
    }
}

/// A transcript that does not change is mirrored once: after a pass with a stamp
/// the next pass with the same stamp does not mirror, and one with another stamp
/// does.
pub proof fn an_unchanged_transcript_is_mirrored_once(
    forum: ForumView,
    path: Seq<char>,
    stamp: Stamp,
    next: Stamp,
)
    ensures
        forum.stamps.insert(path, stamp).get(path) == Some(next) <==> next == stamp,
{
}

/// Whether a transcript was unchanged for so long that the session may have
/// rotated to a new file. A transcript from the future has no age.
pub fn check_rotation(age: Option<TimeSpan>) -> (stale: bool)
    ensures
        stale == match age {
            Some(age) => age.secs > SESSION_STALE_GRACE || (age.secs == SESSION_STALE_GRACE
                && age.nanos > 0),
            None => false,
        },
{
    match age {
        Some(age) => age.secs > SESSION_STALE_GRACE || (age.secs == SESSION_STALE_GRACE && age.nanos
            > 0),
        None => false,
    }
}

/// A file beside a transcript.
pub struct TranscriptFile {
    /// Path of the file.
    pub path: String,
    /// When it was last changed, and its size.
    pub stamp: Stamp,
}

/// A file was changed after another.
pub open spec fn later(left: Stamp, right: Stamp) -> bool {
    left.seconds > right.seconds || (left.seconds == right.seconds && left.nanos > right.nanos)
}

/// The file that was changed last, the first of them, or -1 where there is none.
pub open spec fn newest(files: Seq<TranscriptFile>) -> int
    decreases files.len(),
{
    if files.len() == 0 {
        -1
    } else {
        let before = newest(files.drop_last());
        if before < 0 || later(files.last().stamp, files[before].stamp) {
            files.len() - 1
        } else {
            before
        }
    }
}

proof fn lemma_newest(files: Seq<TranscriptFile>)
    ensures
        -1 <= newest(files) < files.len(),
        files.len() > 0 ==> newest(files) >= 0,
        forall|i: int|
            0 <= i < files.len() ==> !later((#[trigger] files[i]).stamp, files[newest(files)].stamp),
    decreases files.len(),
{
    if files.len() > 0 {
        let rest = files.drop_last();
        lemma_newest(rest);
        let before = newest(rest);
        assert forall|i: int| 0 <= i < files.len() implies !later(
            (#[trigger] files[i]).stamp,
            files[newest(files)].stamp,
        ) by {
            if i < rest.len() {
                assert(files[i] == rest[i]);
                assert(files[before] == rest[before]);
            }
        }
    }
}

/// No file was changed after the newest one.
pub proof fn no_file_is_later_than_the_newest(files: Seq<TranscriptFile>, at: int)
    requires
        0 <= at < files.len(),
    ensures
        0 <= newest(files) < files.len(),
        !later(files[at].stamp, files[newest(files)].stamp),
{
    lemma_newest(files);
}

/// Reports whether a file was changed after another.
pub fn is_later(left: Stamp, right: Stamp) -> (result: bool)
    ensures
        result == later(left, right),
{
    left.seconds > right.seconds || (left.seconds == right.seconds && left.nanos > right.nanos)
}

fn find_newest(files: &Vec<TranscriptFile>) -> (found: Option<usize>)
    ensures
        match found {
            Some(at) => at < files@.len() && at == newest(files@),
            None => files@.len() == 0,
        },
{
    if files.len() == 0 {
        return None;
    }
    let mut found: usize = 0;
    let mut i: usize = 1;
    assert(files@.take(1).drop_last() =~= files@.take(0));
    assert(newest(files@.take(0)) == -1);
    while i < files.len()
        invariant
            1 <= i <= files@.len(),
            found < i,
            found == newest(files@.take(i as int)),
        decreases files@.len() - i,
    {
        assert(files@.take(i + 1).drop_last() =~= files@.take(i as int));
        if is_later(files[i].stamp, files[found].stamp) {
            found = i;
        }
        i += 1;
    }
    assert(files@.take(i as int) =~= files@);
    Some(found)
}

/// A file that another session row reads.
pub open spec fn read_by_another(rows: Seq<SessionRow>, session_path: Seq<char>, file: Seq<char>) -> bool {
    exists|i: int|
        0 <= i < rows.len() && (#[trigger] rows[i])@.session_path != session_path
            && rows[i]@.transcript_path == file
}

/// A file that belongs to a live agent or to another session row.
pub open spec fn claimed(
    agents: Seq<Agent>,
    rows: Seq<SessionRow>,
    session_path: Seq<char>,
    file: Seq<char>,
) -> bool {
    events::live_values(agents).contains(file) || read_by_another(rows, session_path, file)
}

/// The file that a session rotated to, which was changed after the bound one.
pub open spec fn rotated(
    row: SessionRowView,
    bound: Stamp,
    files: Seq<TranscriptFile>,
    agents: Seq<Agent>,
    rows: Seq<SessionRow>,
) -> Option<Seq<char>> {
    if files.len() == 0 {
        None
    } else {
        let candidate = files[newest(files)].path@;
        if !later(files[newest(files)].stamp, bound) || paths::path_equal(
            candidate,
            row.transcript_path,
        ) || claimed(
            agents,
            rows,
            row.session_path,
            candidate,
        ) {
            None
        } else {
            Some(candidate)
        }
    }
}

fn another_reads(rows: &Vec<SessionRow>, session_path: &str, file: &str) -> (result: bool)
    ensures
        result == read_by_another(rows@, session_path@, file@),
{
    let mut i: usize = 0;
    while i < rows.len()
        invariant
            i <= rows@.len(),
            forall|j: int|
                0 <= j < i ==> !((#[trigger] rows@[j])@.session_path != session_path@
                    && rows@[j]@.transcript_path == file@),
        decreases rows@.len() - i,
    {
        if !text::same(rows[i].session_path.as_str(), session_path) && text::same(
            rows[i].transcript_path.as_str(),
            file,
        ) {
            assert(rows@[i as int]@.session_path != session_path@);
            return true;
        }
        i += 1;
    }
    false
}

/// Decides whether a file can be adopted: unless it is the one that the session
/// reads already, or another agent or session claims it.
pub fn unclaimed_file(
    candidate: &str,
    current: bool,
    session: &SessionRow,
    agents: &Vec<Agent>,
    rows: &Vec<SessionRow>,
) -> (file: Option<String>)
    ensures
        text::opt_text(file) == if current || claimed(
            agents@,
            rows@,
            session@.session_path,
            candidate@,
        ) {
            None
        } else {
            Some(candidate@)
        },
{
    let reported = events::live_paths(agents);
    if current || text::among(&reported, candidate) || another_reads(
        rows,
        session.session_path.as_str(),
        candidate,
    ) {
        None
    } else {
        Some(text::copy(candidate))
    }
}

/// Finds the newest transcript file in `session`'s directory when it is newer
/// than the bound file, which was last changed at `bound`, and not claimed by
/// another agent or session row: evidence that the session rotated to a new
/// transcript. `None` when there is nothing to adopt.
///
/// A file herdr reports for any live agent belongs to that agent — including a
/// sibling whose row does not exist yet — and a file another row already reads
/// belongs to that session.
pub fn rotated_session_file(
    session: &SessionRow,
    bound: Stamp,
    files: &Vec<TranscriptFile>,
    agents: &Vec<Agent>,
    rows: &Vec<SessionRow>,
) -> (result: Option<String>)
    ensures
        text::opt_text(result) == rotated(session@, bound, files@, agents@, rows@),
{
    match find_newest(files) {
        Some(at) => {
            let candidate = files[at].path.as_str();
            if !is_later(files[at].stamp, bound) {
                return None;
            }
            let current = paths::same_path(candidate, session.transcript_path.as_str());
            unclaimed_file(candidate, current, session, agents, rows)
        },
        None => None,
    }
}

/// The directory in which a session's transcripts are.
pub fn transcript_directory(session: &SessionRow) -> (directory: Option<String>)
    ensures
        text::opt_text(directory) == paths::parent_path(session@.transcript_path),
{
    paths::parent(session.transcript_path.as_str())
}

/// The row that is bound to a new transcript.
pub open spec fn adopted(row: SessionRowView, transcript: Seq<char>) -> SessionRowView {
    SessionRowView {
        transcript_path: transcript,
        synced_messages: 0,
        last_discord_message_id: None,
        ..row
    }
}

/// Re-binds a session to a new transcript file after a rotation: the post binding
/// and the row key (herdr's reported path) are unchanged; the cursor restarts
/// because the new file is a fresh message stream.
pub fn adopt_transcript(session: &SessionRow, new_path: &str) -> (row: SessionRow)
    ensures
        row@ == adopted(session@, new_path@),
{
    let mut row = session.copy();
    row.transcript_path = text::copy(new_path);
    row.synced_messages = 0;
    row.last_discord_message_id = None;
    row
}

/// A session that adopted a transcript keeps its key and post, belongs to agents
/// that report either path, and takes no file of another session or live agent,
/// nor one that is no newer than the file it leaves.
pub proof fn an_adopted_transcript_stays_with_its_session(
    row: SessionRowView,
    bound: Stamp,
    files: Seq<TranscriptFile>,
    agents: Seq<Agent>,
    rows: Seq<SessionRow>,
)
    ensures
        rotated(row, bound, files, agents, rows) matches Some(file) ==> {
            &&& exists|i: int|
                0 <= i < files.len() && (#[trigger] files[i]).path@ == file && later(
                    files[i].stamp,
                    bound,
                )
            &&& adopted(row, file).hosts(row.session_path)
            &&& adopted(row, file).hosts(file)
            &&& adopted(row, file).session_path == row.session_path
            &&& adopted(row, file).post_channel_id == row.post_channel_id
            &&& !events::live_values(agents).contains(file)
            &&& forall|i: int|
                0 <= i < rows.len() && (#[trigger] rows[i])@.session_path != row.session_path
                    ==> rows[i]@.transcript_path != file
        },
{
    lemma_newest(files);
}

} // verus!
