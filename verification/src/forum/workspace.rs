//! The workspace and forum lifecycle: ensuring, renaming, and re-keying a
//! workspace's forum channel, resolving worktree workspaces to their repo's main
//! workspace, workspace lookups, and pruning stale workspace rows.

use vstd::prelude::*;

use crate::db::model::{WorkspaceRow, WorkspaceRowView};
use crate::error::BotResult;
use crate::forum;
use crate::forum::lookup::Existence;
use crate::forum::titles;
use crate::herdr::model::Workspace;
use crate::herdr::wire::{WorktreeEntry, WorktreeList};
use crate::ids::ChannelId;
use crate::seqs;
use crate::text;

verus! {

/// Workspaces with an id.
pub open spec fn has_id(id: Seq<char>) -> spec_fn(Workspace) -> bool {
    |workspace: Workspace| workspace.workspace_id@ == id
}

/// Workspaces with a label.
pub open spec fn has_label(label: Seq<char>) -> spec_fn(Workspace) -> bool {
    |workspace: Workspace| workspace.label@ == label
}

/// The first workspace that satisfies a predicate.
pub open spec fn first_workspace(
    workspaces: Seq<Workspace>,
    wanted: spec_fn(Workspace) -> bool,
) -> Option<Workspace> {
    let at = seqs::first_where(workspaces, wanted);
    if at < workspaces.len() {
        Some(workspaces[at])
    } else {
        None
    }
}

/// Finds the herdr workspace with `workspace_id`, if any.
pub fn workspace_by_id<'a>(workspaces: &'a Vec<Workspace>, workspace_id: &str) -> (found: Option<
    &'a Workspace,
>)
    ensures
        match found {
            Some(workspace) => first_workspace(workspaces@, has_id(workspace_id@)) == Some(
                *workspace,
            ),
            None => first_workspace(workspaces@, has_id(workspace_id@)) is None,
        },
{
    let ghost wanted = has_id(workspace_id@);
    let mut at: usize = 0;
    while at < workspaces.len()
        invariant
            at <= workspaces@.len(),
            wanted == has_id(workspace_id@),
            forall|i: int| 0 <= i < at ==> !wanted(#[trigger] workspaces@[i]),
        decreases workspaces@.len() - at,
    {
        if text::same(workspaces[at].workspace_id.as_str(), workspace_id) {
            proof {
                seqs::lemma_first_where_is(workspaces@, wanted, at as int);
            }
            return Some(&workspaces[at]);
        }
        at += 1;
    }
    proof {
        seqs::lemma_first_where_is(workspaces@, wanted, at as int);
    }
    None
}

/// Finds the herdr workspace with `label`, if any.
pub fn workspace_by_label<'a>(workspaces: &'a Vec<Workspace>, label: &str) -> (found: Option<
    &'a Workspace,
>)
    ensures
        match found {
            Some(workspace) => first_workspace(workspaces@, has_label(label@)) == Some(*workspace),
            None => first_workspace(workspaces@, has_label(label@)) is None,
        },
{
    let ghost wanted = has_label(label@);
    let mut at: usize = 0;
    while at < workspaces.len()
        invariant
            at <= workspaces@.len(),
            wanted == has_label(label@),
            forall|i: int| 0 <= i < at ==> !wanted(#[trigger] workspaces@[i]),
        decreases workspaces@.len() - at,
    {
        if text::same(workspaces[at].label.as_str(), label) {
            proof {
                seqs::lemma_first_where_is(workspaces@, wanted, at as int);
            }
            return Some(&workspaces[at]);
        }
        at += 1;
    }
    proof {
        seqs::lemma_first_where_is(workspaces@, wanted, at as int);
    }
    None
}

/// Worktrees that are open in a workspace.
pub open spec fn open_in(id: Seq<char>) -> spec_fn(WorktreeEntry) -> bool {
    |entry: WorktreeEntry| text::opt_text(entry.open_workspace_id) == Some(id)
}

/// The branch of the worktree that is open in a workspace.
pub open spec fn branch_of(workspace: Workspace, worktrees: Seq<WorktreeEntry>) -> Option<Seq<char>> {
    let at = seqs::first_where(worktrees, open_in(workspace.workspace_id@));
    if workspace.worktree is None || at >= worktrees.len() {
        None
    } else {
        text::opt_text(worktrees[at].branch)
    }
}

/// Finds the branch a worktree workspace has checked out, for the starter
/// message's `worktree` field: `None` when the workspace is not a worktree, or
/// its branch is unknown (e.g. detached).
pub fn worktree_branch(workspace: &Workspace, list: &WorktreeList) -> (branch: Option<String>)
    ensures
        text::opt_text(branch) == branch_of(*workspace, list.worktrees@),
{
    if workspace.worktree.is_none() {
        return None;
    }
    let id = workspace.workspace_id.as_str();
    let ghost wanted = open_in(id@);
    let mut at: usize = 0;
    while at < list.worktrees.len()
        invariant
            at <= list.worktrees@.len(),
            workspace.worktree is Some,
            id@ == workspace.workspace_id@,
            wanted == open_in(id@),
            forall|i: int| 0 <= i < at ==> !wanted(#[trigger] list.worktrees@[i]),
        decreases list.worktrees@.len() - at,
    {
        let entry = &list.worktrees[at];
        if let Some(open) = &entry.open_workspace_id {
            if text::same(open.as_str(), id) {
                proof {
                    seqs::lemma_first_where_is(list.worktrees@, wanted, at as int);
                }
                return text::copy_opt(&entry.branch);
            }
        }
        at += 1;
    }
    proof {
        seqs::lemma_first_where_is(list.worktrees@, wanted, at as int);
    }
    None
}

/// The main (non-worktree) workspace of the repo that a listing is about.
pub open spec fn source_of(list: WorktreeList) -> Option<Seq<char>> {
    match list.source {
        Some(source) => text::opt_text(source.source_workspace_id),
        None => None,
    }
}

/// Finds the main (non-worktree) workspace of the repo, per `worktree.list`.
pub fn worktree_source(list: &WorktreeList) -> (source: Option<&str>)
    ensures
        text::opt_str(source) == source_of(*list),
{
    match &list.source {
        Some(source) => match &source.source_workspace_id {
            Some(id) => Some(id.as_str()),
            None => None,
        },
        None => None,
    }
}

/// The workspace whose forum a workspace mirrors.
pub open spec fn mirrored_workspace(
    workspace: Workspace,
    source: Option<Seq<char>>,
    workspaces: Seq<Workspace>,
) -> Workspace {
    match (workspace.worktree, source) {
        (Some(_), Some(id)) => match first_workspace(workspaces, has_id(id)) {
            Some(main) => main,
            None => workspace,
        },
        _ => workspace,
    }
}

/// Finds the workspace whose forum `workspace` mirrors: a worktree resolves to
/// its repo's main workspace when that is open, else the worktree itself (which
/// then gets its own forum).
pub fn forum_workspace<'a>(
    workspace: &'a Workspace,
    source: Option<&str>,
    workspaces: &'a Vec<Workspace>,
) -> (mirrored: &'a Workspace)
    ensures
        *mirrored == mirrored_workspace(*workspace, text::opt_str(source), workspaces@),
{
    if workspace.worktree.is_none() {
        return workspace;
    }
    match source {
        Some(id) => match workspace_by_id(workspaces, id) {
            Some(main) => main,
            None => workspace,
        },
        None => workspace,
    }
}

/// What ensuring a workspace's forum leads to.
#[derive(Clone, Copy, Debug, PartialEq, Eq, Structural)]
pub enum ForumStep {
    /// The forum is bound; it is used where it still exists, and created again
    /// where it was deleted.
    Check(ChannelId),
    /// The forum is to be created.
    Create,
}

/// Decides how a workspace comes to its forum channel: by the one it is bound to,
/// or by a new one on first use.
pub fn ensure_workspace_forum(row: Option<&WorkspaceRow>) -> (result: BotResult<ForumStep>)
    ensures
        match row {
            Some(row) => match (result, row@.forum_channel_id) {
                (Ok(ForumStep::Check(forum)), Some(id)) => forum.0 == id,
                (Err(error), Some(id)) => id < 0 && error.is_other(forum::invalid_channel(id)),
                (Ok(ForumStep::Create), None) => true,
                _ => false,
            },
            None => result == Ok::<ForumStep, crate::error::BotError>(ForumStep::Create),
        },
{
    match row {
        Some(row) => match row.forum_channel_id {
            Some(id) => match forum::from_i64(id) {
                Ok(forum) => Ok(ForumStep::Check(forum)),
                Err(error) => Err(error),
            },
            None => Ok(ForumStep::Create),
        },
        None => Ok(ForumStep::Create),
    }
}

/// The row of a workspace bound to a forum.
pub open spec fn bound_to(
    row: Option<WorkspaceRowView>,
    workspace: Workspace,
    forum: i64,
) -> WorkspaceRowView {
    match row {
        Some(row) => WorkspaceRowView { forum_channel_id: Some(forum), ..row },
        None => WorkspaceRowView {
            label: workspace.label@,
            workspace_id: workspace.workspace_id@,
            forum_channel_id: Some(forum),
        },
    }
}

/// Makes the row of a workspace with its forum, creating the row on first use.
pub fn upsert_forum(row: Option<WorkspaceRow>, workspace: &Workspace, forum: ChannelId) -> (result:
    BotResult<WorkspaceRow>)
    ensures
        match result {
            Ok(bound) => forum.0 <= i64::MAX && bound@ == bound_to(
                match row {
                    Some(row) => Some(row@),
                    None => None,
                },
                *workspace,
                forum.0 as i64,
            ),
            Err(error) => forum.0 > i64::MAX && error.is_other("snowflake overflows i64"@),
        },
{
    match forum::to_i64(forum.0) {
        Ok(id) => Ok(
            match row {
                Some(row) => {
                    let mut row = row;
                    row.forum_channel_id = Some(id);
                    row
                },
                None => WorkspaceRow {
                    label: text::copy(workspace.label.as_str()),
                    workspace_id: text::copy(workspace.workspace_id.as_str()),
                    forum_channel_id: Some(id),
                },
            },
        ),
        Err(error) => Err(error),
    }
}

/// Whether a workspace has a forum of its own: a worktree mirrors its main
/// workspace's forum, which the main workspace itself creates and renames.
pub fn has_own_forum(workspace: &Workspace, mirrored: &Workspace) -> (result: bool)
    ensures
        result == (workspace.workspace_id@ == mirrored.workspace_id@),
{
    text::same(workspace.workspace_id.as_str(), mirrored.workspace_id.as_str())
}

/// Finds the name to which a workspace's forum is to be renamed so that it
/// matches the workspace's current label; `None` where it does already.
pub fn sync_workspace_forum(workspace: &Workspace, name: &str) -> (rename: Option<String>)
    ensures
        match rename {
            Some(expected) => expected@ == titles::channel_name(text::lowercase(workspace.label@))
                && expected@ != name@,
            None => name@ == titles::channel_name(text::lowercase(workspace.label@)),
        },
{
    let expected = titles::forum_channel_name(workspace.label.as_str());
    if text::same(name, expected.as_str()) {
        None
    } else {
        Some(expected)
    }
}

/// How a workspace's row is brought under its current key.
pub enum RekeyStep {
    /// The row matches already, or there is none.
    Keep,
    /// Store the row with the current id.
    Update(WorkspaceRow),
    /// Delete the row with this label and store the other.
    Move(String, WorkspaceRow),
}

/// The content of how a workspace's row is brought under its current key.
pub ghost enum RekeyView {
    Keep,
    Update(WorkspaceRowView),
    Move(Seq<char>, WorkspaceRowView),
}

impl View for RekeyStep {
    type V = RekeyView;

    open spec fn view(&self) -> RekeyView {
        match self {
            RekeyStep::Keep => RekeyView::Keep,
            RekeyStep::Update(row) => RekeyView::Update(row@),
            RekeyStep::Move(label, row) => RekeyView::Move(label@, row@),
        }
    }
}

/// The content of a row, where there is one.
pub open spec fn row_of(row: Option<&WorkspaceRow>) -> Option<WorkspaceRowView> {
    match row {
        Some(row) => Some(row@),
        None => None,
    }
}

/// How a workspace's row is brought under its current key, given the rows found
/// by its label, by its stored id, and by its id as the label.
pub open spec fn rekey_step(
    workspace: Workspace,
    by_label: Option<WorkspaceRowView>,
    by_id: Option<WorkspaceRowView>,
    by_old_key: Option<WorkspaceRowView>,
) -> RekeyView {
    let id = workspace.workspace_id@;
    match (by_label, by_id, by_old_key) {
        (Some(row), _, _) => if row.workspace_id == id {
            RekeyView::Keep
        } else {
            RekeyView::Update(WorkspaceRowView { workspace_id: id, ..row })
        },
        (None, None, None) => RekeyView::Keep,
        (None, Some(row), _) | (None, None, Some(row)) => RekeyView::Move(
            row.label,
            WorkspaceRowView {
                label: workspace.label@,
                workspace_id: id,
                forum_channel_id: row.forum_channel_id,
            },
        ),
    }
}

/// Decides how `workspace`'s row is re-keyed when it is stored under a stale key:
/// rows from before the label-keyed identity carry the herdr id in the key
/// position, and a renamed workspace moves its row to the new label (the stored id
/// identifies it).
pub fn rekey_workspace(
    workspace: &Workspace,
    by_label: Option<&WorkspaceRow>,
    by_id: Option<&WorkspaceRow>,
    by_old_key: Option<&WorkspaceRow>,
) -> (step: RekeyStep)
    ensures
        step@ == rekey_step(*workspace, row_of(by_label), row_of(by_id), row_of(by_old_key)),
{
    let id = workspace.workspace_id.as_str();
    if let Some(row) = by_label {
        if text::same(row.workspace_id.as_str(), id) {
            return RekeyStep::Keep;
        }
        return RekeyStep::Update(
            WorkspaceRow {
                label: text::copy(row.label.as_str()),
                workspace_id: text::copy(id),
                forum_channel_id: row.forum_channel_id,
            },
        );
    }
    let found = match by_id {
        Some(row) => Some(row),
        None => by_old_key,
    };
    match found {
        Some(row) => RekeyStep::Move(
            text::copy(row.label.as_str()),
            WorkspaceRow {
                label: text::copy(workspace.label.as_str()),
                workspace_id: text::copy(id),
                forum_channel_id: row.forum_channel_id,
            },
        ),
        None => RekeyStep::Keep,
    }
}

/// A workspace keeps its forum when its row is re-keyed, and a row that was
/// re-keyed and is found by its label stays as it is.
pub proof fn rekeying_keeps_the_forum(
    workspace: Workspace,
    by_label: Option<WorkspaceRowView>,
    by_id: Option<WorkspaceRowView>,
    by_old_key: Option<WorkspaceRowView>,
    later_by_id: Option<WorkspaceRowView>,
    later_by_old_key: Option<WorkspaceRowView>,
)
    requires
        by_label matches Some(row) ==> row.label == workspace.label@,
    ensures
        ({
            let stored = match rekey_step(workspace, by_label, by_id, by_old_key) {
                RekeyView::Keep => by_label,
                RekeyView::Update(row) => Some(row),
                RekeyView::Move(_, row) => Some(row),
            };
            &&& stored matches Some(row) ==> row.label == workspace.label@ && row.workspace_id
                == workspace.workspace_id@ && (row.forum_channel_id == match (by_label, by_id, by_old_key) {
                (Some(before), _, _) => before.forum_channel_id,
                (None, Some(before), _) => before.forum_channel_id,
                (None, None, Some(before)) => before.forum_channel_id,
                (None, None, None) => None,
            })
            &&& stored is Some ==> rekey_step(workspace, stored, later_by_id, later_by_old_key)
                is Keep
        }),
{
}

/// What a workspace row leads to when stale rows are pruned.
#[derive(Clone, Copy, Debug, PartialEq, Eq, Structural)]
pub enum WorkspacePrune {
    /// The workspace is live, or the row has no forum.
    Keep,
    /// Whether the forum still exists decides.
    Check(ChannelId),
}

/// Some live workspace has a label.
pub open spec fn is_live_label(workspaces: Seq<Workspace>, label: Seq<char>) -> bool {
    first_workspace(workspaces, has_label(label)) is Some
}

/// What a workspace row leads to, given the live workspaces.
pub open spec fn workspace_prune(row: WorkspaceRowView, workspaces: Seq<Workspace>) -> WorkspacePrune {
    if is_live_label(workspaces, row.label) {
        WorkspacePrune::Keep
    } else {
        match row.forum_channel_id {
            Some(id) => if id >= 0 {
                WorkspacePrune::Check(ChannelId(id as u64))
            } else {
                WorkspacePrune::Keep
            },
            None => WorkspacePrune::Keep,
        }
    }
}

/// Decides what becomes of a workspace row in a reconcile. A live workspace keeps
/// its row even when its forum was deleted — the forum is created again.
pub fn prune_stale_workspace(row: &WorkspaceRow, workspaces: &Vec<Workspace>) -> (step:
    WorkspacePrune)
    ensures
        step == workspace_prune(row@, workspaces@),
{
    if workspace_by_label(workspaces, row.label.as_str()).is_some() {
        return WorkspacePrune::Keep;
    }
    match row.forum_channel_id {
        Some(id) => match forum::from_i64(id) {
            Ok(forum) => WorkspacePrune::Check(forum),
            Err(_) => WorkspacePrune::Keep,
        },
        None => WorkspacePrune::Keep,
    }
}

/// Decides whether the row of a workspace that is gone is deleted: where its
/// forum was deleted too. A row whose forum could not be looked up is left for
/// the next reconcile.
pub fn prunes_workspace(forum: Existence) -> (deletes: bool)
    ensures
        deletes == (forum is Gone),
{
    match forum {
        Existence::Gone => true,
        _ => false,
    }
}

} // verus!
