//! Creating a session's forum post, and importing a session.
//!
//! Both take several Discord and database operations, each of which can fail.
//! The runs here say which operation comes next; `E` stands for the error of an
//! operation.

use vstd::prelude::*;

use crate::acp::protocol::{ImportedSession, ListedView};
use crate::config::AgentKey;
use crate::db::{RowView, SessionRow};
use crate::discord::forum;
use crate::discord::forum::{MetadataView, SessionMetadata};
use crate::error::{BotError, BotResult};
use crate::ids::{ForumTagId, GenericChannelId};
use crate::paths;
use crate::text;

verus! {

/// A forum post that is about to be created.
pub struct NewPost {
    /// Title of the post.
    pub title: String,
    /// Content of its first message.
    pub content: String,
}

/// How far a post has come.
pub enum PostPhase<E> {
    /// The post is being created.
    Creating,
    /// The post exists and is being tagged.
    Tagging(GenericChannelId),
    /// The post is tagged and its session is being stored.
    Storing(GenericChannelId),
    /// The post is being deleted after a failure.
    Cleaning(GenericChannelId, E),
    /// The run is over.
    Ended,
}

/// What an operation came to.
pub enum PostEvent<E> {
    /// The post was created, or not.
    Created(Result<GenericChannelId, E>),
    /// The tag was applied, or not.
    Tagged(Result<(), E>),
    /// The binding was stored, or not.
    Stored(Result<(), E>),
    /// The post was deleted, or could not be: both end the run.
    Deleted,
}

/// What is to be done for a post.
pub enum PostStep<E> {
    /// Apply the tag to the post.
    Tag(GenericChannelId, ForumTagId),
    /// Store the binding of the session.
    Store(SessionRow),
    /// Delete the post.
    Delete(GenericChannelId),
    /// The session is bound.
    Bound(GenericChannelId),
    /// The session could not be bound.
    Failed(E),
}

/// The content of a step.
pub ghost enum PostStepView<E> {
    Tag(GenericChannelId, ForumTagId),
    Store(RowView),
    Delete(GenericChannelId),
    Bound(GenericChannelId),
    Failed(E),
}

impl<E> View for PostStep<E> {
    type V = PostStepView<E>;

    open spec fn view(&self) -> PostStepView<E> {
        match self {
            PostStep::Tag(thread, tag) => PostStepView::Tag(*thread, *tag),
            PostStep::Store(row) => PostStepView::Store(row@),
            PostStep::Delete(thread) => PostStepView::Delete(*thread),
            PostStep::Bound(thread) => PostStepView::Bound(*thread),
            PostStep::Failed(error) => PostStepView::Failed(*error),
        }
    }
}

/// An event that can happen in a phase.
pub open spec fn post_event<E>(phase: PostPhase<E>, event: PostEvent<E>) -> bool {
    match phase {
        PostPhase::Creating => event is Created,
        PostPhase::Tagging(_) => event is Tagged,
        PostPhase::Storing(_) => event is Stored,
        PostPhase::Cleaning(_, _) => event is Deleted,
        PostPhase::Ended => false,
    }
}

/// The row of a session in a thread.
pub open spec fn row_in(metadata: MetadataView, thread: GenericChannelId) -> RowView {
    RowView {
        thread_id: thread,
        agent_key: metadata.agent_key,
        session_id: metadata.session_id,
        project_path: metadata.project_path,
    }
}

/// What an event leads to: the next phase and what is to be done.
pub open spec fn post_next<E>(
    phase: PostPhase<E>,
    event: PostEvent<E>,
    metadata: MetadataView,
    tag: ForumTagId,
) -> (PostPhase<E>, PostStepView<E>) {
    match (phase, event) {
        (PostPhase::Creating, PostEvent::Created(Ok(thread))) => (
            PostPhase::Tagging(thread),
            PostStepView::Tag(thread, tag),
        ),
        (PostPhase::Creating, PostEvent::Created(Err(error))) => (
            PostPhase::Ended,
            PostStepView::Failed(error),
        ),
        (PostPhase::Tagging(thread), PostEvent::Tagged(Ok(_))) => (
            PostPhase::Storing(thread),
            PostStepView::Store(row_in(metadata, thread)),
        ),
        (PostPhase::Tagging(thread), PostEvent::Tagged(Err(error))) => (
            PostPhase::Cleaning(thread, error),
            PostStepView::Delete(thread),
        ),
        (PostPhase::Storing(thread), PostEvent::Stored(Ok(_))) => (
            PostPhase::Ended,
            PostStepView::Bound(thread),
        ),
        (PostPhase::Storing(thread), PostEvent::Stored(Err(error))) => (
            PostPhase::Cleaning(thread, error),
            PostStepView::Delete(thread),
        ),
        (PostPhase::Cleaning(_, error), _) => (PostPhase::Ended, PostStepView::Failed(error)),
        _ => arbitrary(),
    }
}

/// Binding a session to a new forum post.
pub struct PostRun<E> {
    metadata: SessionMetadata,
    tag: ForumTagId,
    phase: PostPhase<E>,
}

impl<E> View for PostRun<E> {
    type V = (MetadataView, ForumTagId, PostPhase<E>);

    closed spec fn view(&self) -> (MetadataView, ForumTagId, PostPhase<E>) {
        (self.metadata@, self.tag, self.phase)
    }
}

impl<E> PostRun<E> {
    /// Creates and tags a forum post for a newly bound ACP session, whose agent
    /// has to have a tag.
    pub fn create_session_post(
        metadata: SessionMetadata,
        tags: &Vec<(AgentKey, ForumTagId)>,
        home: &Option<String>,
    ) -> (result: BotResult<(PostRun<E>, NewPost)>)
        ensures
            match (
                result,
                forum::session_tag(forum::tag_id_views(tags@), metadata@.agent_key),
            ) {
                (Ok((run, post)), Some(tag)) => run@ == (
                    metadata@,
                    tag,
                    PostPhase::<E>::Creating,
                ) && post.title@ == metadata@.post_title(text::opt_text(*home)) && post.content@
                    == metadata@.starter(),
                (Err(error), None) => error matches BotError::MissingForumTag { agent_key }
                    && agent_key@ == metadata@.agent_key,
                _ => false,
            },
    {
        match forum::find_session_tag(tags, &metadata.agent_key) {
            Ok(tag) => {
                let post = NewPost {
                    title: metadata.post_title_in(home),
                    content: metadata.starter_message(),
                };
                Ok((PostRun { metadata, tag, phase: PostPhase::Creating }, post))
            },
            Err(error) => Err(error),
        }
    }

    fn row(&self, thread: GenericChannelId) -> (row: SessionRow)
        ensures
            row@ == row_in(self@.0, thread),
    {
        SessionRow {
            thread_id: thread,
            agent_key: self.metadata.agent_key.copy(),
            session_id: text::copy(self.metadata.session_id.as_str()),
            project_path: text::copy(self.metadata.project_path.as_str()),
        }
    }

    /// Decides what the outcome of an operation leads to. A post that cannot be
    /// tagged or stored is deleted again.
    pub fn create_and_store_session(&mut self, event: PostEvent<E>) -> (step: PostStep<E>)
        requires
            post_event(old(self)@.2, event),
        ensures
            final(self)@.0 == old(self)@.0,
            final(self)@.1 == old(self)@.1,
            (final(self)@.2, step@) == post_next(old(self)@.2, event, old(self)@.0, old(self)@.1),
    {
        let mut phase = PostPhase::Ended;
        std::mem::swap(&mut phase, &mut self.phase);
        match (phase, event) {
            (PostPhase::Creating, PostEvent::Created(Ok(thread))) => {
                self.phase = PostPhase::Tagging(thread);
                PostStep::Tag(thread, self.tag)
            },
            (PostPhase::Creating, PostEvent::Created(Err(error))) => PostStep::Failed(error),
            (PostPhase::Tagging(thread), PostEvent::Tagged(Ok(()))) => {
                self.phase = PostPhase::Storing(thread);
                PostStep::Store(self.row(thread))
            },
            (PostPhase::Tagging(thread), PostEvent::Tagged(Err(error))) => {
                self.phase = PostPhase::Cleaning(thread, error);
                PostStep::Delete(thread)
            },
            (PostPhase::Storing(thread), PostEvent::Stored(Ok(()))) => PostStep::Bound(thread),
            (PostPhase::Storing(thread), PostEvent::Stored(Err(error))) => {
                self.phase = PostPhase::Cleaning(thread, error);
                PostStep::Delete(thread)
            },
            (PostPhase::Cleaning(_, error), _) => PostStep::Failed(error),
            (_, _) => {
                assert(false);
                PostStep::Delete(GenericChannelId(0))
            },
        }
    }
}

/// The post that exists on Discord in a phase.
pub open spec fn standing<E>(phase: PostPhase<E>) -> Option<GenericChannelId> {
    match phase {
        PostPhase::Tagging(thread) => Some(thread),
        PostPhase::Storing(thread) => Some(thread),
        _ => None,
    }
}

/// An operation on an existing post that failed.
pub open spec fn has_failed<E>(event: PostEvent<E>) -> bool {
    match event {
        PostEvent::Tagged(result) => result is Err,
        PostEvent::Stored(result) => result is Err,
        _ => false,
    }
}

/// A run that fails while its post exists asks for the deletion of the post
/// before it ends, and a run ends well only once its binding is stored.
pub proof fn a_failed_post_is_deleted<E>(
    phase: PostPhase<E>,
    event: PostEvent<E>,
    metadata: MetadataView,
    tag: ForumTagId,
)
    requires
        post_event(phase, event),
    ensures
        standing(phase) is Some && has_failed(event) ==> post_next(phase, event, metadata, tag).1
            == PostStepView::<E>::Delete(standing(phase)->0),
        post_next(phase, event, metadata, tag).1 is Failed ==> standing(phase) is None,
        post_next(phase, event, metadata, tag).1 is Bound ==> phase is Storing && !has_failed(
            event,
        ),
{
}

/// What an import does next.
pub enum ImportStep {
    /// Look up the binding of the session.
    LookUp,
    /// Check whether the thread of an existing binding still exists.
    CheckThread(GenericChannelId),
    /// Stop the actor of a stale binding, wait for it, and delete the binding.
    Forget(GenericChannelId),
    /// Ask the agent for the session.
    Inspect,
    /// Validate the session in this working directory, then bind it.
    Bind(SessionMetadata),
    /// The session cannot be imported.
    Refuse(BotError),
}

/// Starts importing a session, whose identifier must not be blank.
pub fn import_session(session_id: &str) -> (step: ImportStep)
    ensures
        if text::is_blank(session_id@) {
            step matches ImportStep::Refuse(error) && error is EmptySessionId
        } else {
            step is LookUp
        },
{
    if text::blank(session_id) {
        ImportStep::Refuse(BotError::EmptySessionId)
    } else {
        ImportStep::LookUp
    }
}

/// Goes on with the binding that was found, if any: its thread is checked first.
pub fn import_looked_up(existing: Option<GenericChannelId>) -> (step: ImportStep)
    ensures
        match existing {
            Some(thread) => step == ImportStep::CheckThread(thread),
            None => step is Inspect,
        },
{
    match existing {
        Some(thread) => ImportStep::CheckThread(thread),
        None => ImportStep::Inspect,
    }
}

/// Goes on with an existing binding: a live one refuses the import, a stale one
/// is forgotten, after which the agent is asked.
pub fn import_checked(thread: GenericChannelId, alive: bool) -> (step: ImportStep)
    ensures
        if alive {
            step matches ImportStep::Refuse(error) && error == (BotError::AlreadyImported {
                thread,
            })
        } else {
            step == ImportStep::Forget(thread)
        },
{
    if alive {
        ImportStep::Refuse(BotError::AlreadyImported { thread })
    } else {
        ImportStep::Forget(thread)
    }
}

/// The working directory of an imported session: in its canonical form where it
/// has one.
pub open spec fn imported_path(imported: ListedView, canonical: Option<Seq<char>>) -> Seq<char> {
    match canonical {
        Some(path) => path,
        None => imported.project_path,
    }
}

/// Goes on with what the agent said of the session, whose working directory has
/// to be absolute.
pub fn import_inspected(
    agent_key: &AgentKey,
    imported: ImportedSession,
    canonical: Option<String>,
) -> (step: ImportStep)
    ensures
        if paths::is_absolute_path(imported@.project_path) {
            step matches ImportStep::Bind(metadata) && metadata@ == (MetadataView {
                agent_key: agent_key@,
                project_path: imported_path(imported@, text::opt_text(canonical)),
                session_id: imported@.session_id,
                title: imported@.title,
                model: None,
            })
        } else {
            step matches ImportStep::Refuse(BotError::NonAbsoluteProjectPath { path }) && path@
                == imported@.project_path
        },
{
    if !paths::is_absolute(imported.project_path.as_str()) {
        return ImportStep::Refuse(
            BotError::NonAbsoluteProjectPath { path: imported.project_path },
        );
    }
    ImportStep::Bind(
        SessionMetadata {
            agent_key: agent_key.copy(),
            project_path: match canonical {
                Some(path) => path,
                None => imported.project_path,
            },
            session_id: imported.session_id,
            title: imported.title,
            model: None,
        },
    )
}

} // verus!
