//! Listing the threads of the configured forum and reconciling them with the
//! persisted sessions.

use vstd::prelude::*;

use crate::config::AgentKey;
use crate::db::SessionRow;
use crate::discord::forum;
use crate::discord::forum::{MetadataView, SessionMetadata};
use crate::error::BotError;
use crate::ids::{ChannelId, ForumTagId, GenericChannelId};
use crate::seqs;
use crate::text;

verus! {

/// A Discord thread, as far as it is looked at.
#[derive(Clone, Copy, Debug, PartialEq, Eq, Structural)]
pub struct ForumThread {
    /// Identifies the thread.
    pub id: GenericChannelId,
    /// Channel that the thread belongs to.
    pub parent: ChannelId,
    /// Whether the thread is archived.
    pub archived: bool,
    /// When the thread was archived, where Discord says so.
    pub archive_timestamp: Option<i64>,
    /// When the thread was created.
    pub created_at: i64,
}

/// Threads with an identifier.
pub open spec fn with_id(id: GenericChannelId) -> spec_fn(ForumThread) -> bool {
    |thread: ForumThread| thread.id == id
}

/// A list with a thread: in the place of the one with its identifier, or at the
/// end.
pub open spec fn with_thread(threads: Seq<ForumThread>, thread: ForumThread) -> Seq<ForumThread> {
    let at = seqs::first_where(threads, with_id(thread.id));
    if at < threads.len() {
        threads.update(at, thread)
    } else {
        threads.push(thread)
    }
}

/// A list with the threads of a page that belong to a forum.
pub open spec fn with_page(
    threads: Seq<ForumThread>,
    page: Seq<ForumThread>,
    forum: ChannelId,
) -> Seq<ForumThread>
    decreases page.len(),
{
    if page.len() == 0 {
        threads
    } else {
        let before = with_page(threads, page.drop_last(), forum);
        if page.last().parent == forum {
            with_thread(before, page.last())
        } else {
            before
        }
    }
}

/// No two threads of a list are the same.
pub open spec fn distinct(threads: Seq<ForumThread>) -> bool {
    forall|i: int, j: int|
        0 <= i < j < threads.len() ==> (#[trigger] threads[i]).id != (#[trigger] threads[j]).id
}

fn insert_thread(threads: &mut Vec<ForumThread>, thread: ForumThread)
    ensures
        final(threads)@ == with_thread(old(threads)@, thread),
{
    let ghost wanted = with_id(thread.id);
    let ghost all = threads@;
    let mut at: usize = 0;
    while at < threads.len()
        invariant
            at <= threads@.len(),
            threads@ == all,
            all == old(threads)@,
            wanted == with_id(thread.id),
            forall|i: int| 0 <= i < at ==> !wanted(#[trigger] all[i]),
        decreases threads@.len() - at,
    {
        if threads[at].id == thread.id {
            proof {
                seqs::lemma_first_where_is(all, wanted, at as int);
            }
            threads.set(at, thread);
            return ;
        }
        at += 1;
    }
    proof {
        seqs::lemma_first_where_is(all, wanted, at as int);
    }
    threads.push(thread);
}

/// Adds the threads of a page that belong to the configured forum.
pub fn keep_forum_threads(
    threads: &mut Vec<ForumThread>,
    page: &Vec<ForumThread>,
    forum: ChannelId,
)
    ensures
        final(threads)@ == with_page(old(threads)@, page@, forum),
{
    let mut i: usize = 0;
    assert(page@.take(0) =~= Seq::empty());
    while i < page.len()
        invariant
            i <= page@.len(),
            threads@ == with_page(old(threads)@, page@.take(i as int), forum),
        decreases page@.len() - i,
    {
        assert(page@.take(i + 1).drop_last() =~= page@.take(i as int));
        if page[i].parent == forum {
            insert_thread(threads, page[i]);
        }
        i += 1;
    }
    assert(page@.take(i as int) =~= page@);
}

/// Adding threads keeps a list without repetitions, and all of its threads in
/// the forum.
pub proof fn a_listing_holds_each_forum_thread_once(
    threads: Seq<ForumThread>,
    page: Seq<ForumThread>,
    forum: ChannelId,
)
    requires
        distinct(threads),
        forall|i: int| 0 <= i < threads.len() ==> (#[trigger] threads[i]).parent == forum,
    ensures
        distinct(with_page(threads, page, forum)),
        forall|i: int|
            0 <= i < with_page(threads, page, forum).len() ==> (#[trigger] with_page(
                threads,
                page,
                forum,
            )[i]).parent == forum,
    decreases page.len(),
{
    if page.len() > 0 {
        a_listing_holds_each_forum_thread_once(threads, page.drop_last(), forum);
        let before = with_page(threads, page.drop_last(), forum);
        seqs::lemma_first_where(before, with_id(page.last().id));
    }
}

/// One answer to a request for archived threads.
pub struct ThreadPage {
    /// Threads of the page, in order.
    pub threads: Vec<ForumThread>,
    /// Whether Discord has more threads.
    pub has_more: bool,
}

/// What listing archived threads does next.
#[derive(Clone, Copy, Debug, PartialEq, Eq, Structural)]
pub enum ArchiveStep {
    /// Request the page before this time.
    Request(i64),
    /// The list is complete.
    Done,
}

/// Where the page after a page starts: at the archive time of its last thread,
/// or the time at which that thread was created.
pub open spec fn next_before(page: Seq<ForumThread>) -> Option<i64> {
    if page.len() == 0 {
        None
    } else {
        match page.last().archive_timestamp {
            Some(time) => Some(time),
            None => Some(page.last().created_at),
        }
    }
}

/// What follows a page: another request, unless Discord has no more threads, or
/// the page names no time, or the time of the request before.
pub open spec fn archive_next(before: Option<i64>, page: ThreadPage) -> ArchiveStep {
    match next_before(page.threads@) {
        Some(time) if page.has_more && before != Some(time) => ArchiveStep::Request(time),
        _ => ArchiveStep::Done,
    }
}

/// Listing the archived threads of the configured forum, page by page.
pub struct ArchiveListing {
    forum: ChannelId,
    threads: Vec<ForumThread>,
    before: Option<i64>,
}

/// How far listing archived threads has come.
pub ghost struct ArchiveView {
    pub forum: ChannelId,
    pub threads: Seq<ForumThread>,
    pub before: Option<i64>,
}

impl View for ArchiveListing {
    type V = ArchiveView;

    closed spec fn view(&self) -> ArchiveView {
        ArchiveView { forum: self.forum, threads: self.threads@, before: self.before }
    }
}

impl ArchiveListing {
    /// Starts listing with the newest archived threads, after the active threads
    /// of the forum.
    pub fn start(forum: ChannelId, active: &Vec<ForumThread>) -> (listing: ArchiveListing)
        ensures
            listing@ == (ArchiveView {
                forum,
                threads: with_page(Seq::empty(), active@, forum),
                before: None,
            }),
    {
        let mut threads: Vec<ForumThread> = Vec::new();
        keep_forum_threads(&mut threads, active, forum);
        ArchiveListing { forum, threads, before: None }
    }

    /// Takes in one page of archived threads.
    pub fn archived_forum_threads(&mut self, page: &ThreadPage) -> (step: ArchiveStep)
        ensures
            step == archive_next(old(self)@.before, *page),
            final(self)@ == (ArchiveView {
                forum: old(self)@.forum,
                threads: with_page(old(self)@.threads, page.threads@, old(self)@.forum),
                before: match step {
                    ArchiveStep::Request(time) => Some(time),
                    ArchiveStep::Done => old(self)@.before,
                },
            }),
    {
        keep_forum_threads(&mut self.threads, &page.threads, self.forum);
        if !page.has_more || page.threads.len() == 0 {
            return ArchiveStep::Done;
        }
        let last = page.threads[page.threads.len() - 1];
        let time: i64 = match last.archive_timestamp {
            Some(time) => time,
            None => last.created_at,
        };
        if self.before == Some(time) {
            return ArchiveStep::Done;
        }
        self.before = Some(time);
        ArchiveStep::Request(time)
    }

    /// Returns the threads found so far.
    pub fn into_threads(self) -> (threads: Vec<ForumThread>)
        ensures
            threads@ == self@.threads,
    {
        self.threads
    }
}

/// Every request asks for another time than the one before it, so that a page
/// that does not move on ends the listing.
pub proof fn an_archive_request_moves_on(before: Option<i64>, page: ThreadPage)
    ensures
        archive_next(before, page) matches ArchiveStep::Request(time) ==> before != Some(time)
            && page.has_more,
{
}

/// Rows of a thread.
pub open spec fn row_of(thread: GenericChannelId) -> spec_fn(SessionRow) -> bool {
    |row: SessionRow| row.thread_id == thread
}

/// What is done with a thread of the forum.
pub enum ThreadAction {
    /// Leave the thread alone.
    Leave,
    /// Delete the thread, which belongs to no session.
    Delete(GenericChannelId),
    /// Set the title and the tag of the thread, and then its starter message.
    Retag {
        /// Thread to edit.
        thread: GenericChannelId,
        /// New title.
        title: String,
        /// Tag to apply.
        tag: ForumTagId,
        /// Session of the thread.
        row: SessionRow,
    },
    /// The session of the thread has no tag.
    Untagged(BotError),
}

/// A thread is dealt with as its session calls for.
pub open spec fn is_action(
    action: ThreadAction,
    thread: ForumThread,
    managed: Seq<SessionRow>,
    tags: Seq<(Seq<char>, ForumTagId)>,
    home: Option<Seq<char>>,
) -> bool {
    let at = seqs::last_where(managed, row_of(thread.id));
    if thread.archived {
        action is Leave
    } else if at < 0 {
        action == ThreadAction::Delete(thread.id)
    } else {
        let row = managed[at]@;
        match forum::session_tag(tags, row.agent_key) {
            None => action matches ThreadAction::Untagged(BotError::MissingForumTag { agent_key })
                && agent_key@ == row.agent_key,
            Some(wanted) => action matches ThreadAction::Retag { thread: id, title, tag, row: session }
                && id == thread.id && title@ == MetadataView::of_row(row, None).post_title(home)
                && tag == wanted && session@ == row,
        }
    }
}

fn find_row(managed: &Vec<SessionRow>, thread: GenericChannelId) -> (found: Option<usize>)
    ensures
        match found {
            Some(at) => at < managed@.len() && at == seqs::last_where(managed@, row_of(thread)),
            None => seqs::last_where(managed@, row_of(thread)) == -1,
        },
{
    let ghost wanted = row_of(thread);
    let mut i: usize = managed.len();
    assert(managed@.take(i as int) =~= managed@);
    while i > 0
        invariant
            i <= managed@.len(),
            wanted == row_of(thread),
            seqs::last_where(managed@, wanted) == seqs::last_where(managed@.take(i as int), wanted),
        decreases i,
    {
        let ghost head = managed@.take(i as int);
        assert(head.drop_last() =~= managed@.take(i - 1));
        if managed[i - 1].thread_id == thread {
            return Some(i - 1);
        }
        i -= 1;
    }
    None
}

/// Decides what is done with a thread of the forum: archived threads stay,
/// unmanaged ones are deleted, and managed ones show their session.
pub fn reconcile_thread(
    thread: &ForumThread,
    managed: &Vec<SessionRow>,
    tags: &Vec<(AgentKey, ForumTagId)>,
    home: &Option<String>,
) -> (action: ThreadAction)
    ensures
        is_action(
            action,
            *thread,
            managed@,
            forum::tag_id_views(tags@),
            text::opt_text(*home),
        ),
{
    proof {
        seqs::lemma_last_where(managed@, row_of(thread.id));
    }
    if thread.archived {
        return ThreadAction::Leave;
    }
    match find_row(managed, thread.id) {
        None => ThreadAction::Delete(thread.id),
        Some(at) => {
            let row = &managed[at];
            match forum::find_session_tag(tags, &row.agent_key) {
                Err(error) => ThreadAction::Untagged(error),
                Ok(tag) => ThreadAction::Retag {
                    thread: thread.id,
                    title: SessionMetadata::from_row(row, None).post_title_in(home),
                    tag,
                    row: row.copy(),
                },
            }
        },
    }
}

/// Why reconciling failed.
pub enum ReconcileError<E> {
    /// The library found the error.
    Bot(BotError),
    /// An operation failed.
    Outside(E),
}

/// What one thread came to.
pub enum ThreadOutcome<E> {
    /// The thread is as it should be.
    Settled,
    /// The thread could not be dealt with.
    Failed(ReconcileError<E>),
}

/// Reconciling the threads of the forum, one after the other.
pub struct ReconcileRun<E> {
    first_error: Option<ReconcileError<E>>,
}

/// How far reconciling has come.
pub ghost struct ReconcileView<E> {
    pub first_error: Option<ReconcileError<E>>,
}

impl<E> View for ReconcileRun<E> {
    type V = ReconcileView<E>;

    closed spec fn view(&self) -> ReconcileView<E> {
        ReconcileView { first_error: self.first_error }
    }
}

impl<E> ReconcileRun<E> {
    /// Starts reconciling.
    pub fn new() -> (run: ReconcileRun<E>)
        ensures
            run@ == (ReconcileView::<E> { first_error: None }),
    {
        ReconcileRun { first_error: None }
    }

    /// Records what one thread came to. A failure does not keep the other
    /// threads from being reconciled; the first one is kept.
    pub fn record(&mut self, outcome: ThreadOutcome<E>)
        ensures
            final(self)@.first_error == match (old(self)@.first_error, outcome) {
                (Some(earlier), _) => Some(earlier),
                (None, ThreadOutcome::Failed(error)) => Some(error),
                (None, ThreadOutcome::Settled) => None,
            },
    {
        match outcome {
            ThreadOutcome::Settled => {},
            ThreadOutcome::Failed(error) => {
                if self.first_error.is_none() {
                    self.first_error = Some(error);
                }
            },
        }
    }

    /// Returns what reconciling came to: the first error, if there was one.
    pub fn reconcile_threads(self) -> (result: Result<(), ReconcileError<E>>)
        ensures
            match self@.first_error {
                Some(error) => result == Err::<(), ReconcileError<E>>(error),
                None => result is Ok,
            },
    {
        match self.first_error {
            Some(error) => Err(error),
            None => Ok(()),
        }
    }
}

/// Reconciling never deletes the thread of a session.
pub proof fn managed_threads_are_kept(
    action: ThreadAction,
    thread: ForumThread,
    managed: Seq<SessionRow>,
    tags: Seq<(Seq<char>, ForumTagId)>,
    home: Option<Seq<char>>,
    at: int,
)
    requires
        is_action(action, thread, managed, tags, home),
        0 <= at < managed.len(),
        managed[at].thread_id == thread.id,
    ensures
        !(action is Delete),
    decreases managed.len(),
{
    lemma_managed(managed, thread.id, at);
}

proof fn lemma_managed(managed: Seq<SessionRow>, thread: GenericChannelId, at: int)
    requires
        0 <= at < managed.len(),
        managed[at].thread_id == thread,
    ensures
        seqs::last_where(managed, row_of(thread)) >= at,
    decreases managed.len(),
{
    if managed.last().thread_id != thread {
        assert(managed.drop_last()[at] == managed[at]);
        lemma_managed(managed.drop_last(), thread, at);
    }
}

/// What an update of a thread means for its session.
#[derive(Clone, Copy, Debug, PartialEq, Eq, Structural)]
pub enum ThreadChange {
    /// Nothing.
    Ignore,
    /// The thread was archived: stop its session.
    Archived,
    /// The thread was reopened: reconcile it and load its session.
    Reopened,
}

/// Stops managed sessions when archived and reconciles them when reopened. An
/// update that does not change whether the thread is archived is ignored, and so
/// is a thread of another channel. `before` is the thread's earlier state, where
/// it is known.
pub fn handle_forum_thread_update(
    forum: ChannelId,
    before: Option<ForumThread>,
    thread: ForumThread,
) -> (change: ThreadChange)
    ensures
        change == if thread.parent != forum || (before matches Some(known) && known.archived
            == thread.archived) {
            ThreadChange::Ignore
        } else if thread.archived {
            ThreadChange::Archived
        } else {
            ThreadChange::Reopened
        },
{
    if thread.parent != forum {
        return ThreadChange::Ignore;
    }
    if let Some(known) = before {
        if known.archived == thread.archived {
            return ThreadChange::Ignore;
        }
    }
    if thread.archived {
        ThreadChange::Archived
    } else {
        ThreadChange::Reopened
    }
}

} // verus!
