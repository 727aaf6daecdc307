//! Re-keying rows stored under the old positional-id identity.

use vstd::prelude::*;

use crate::db::model::{SessionRow, SessionRowView, WorkspaceRow, WorkspaceRowView};
use crate::herdr::model::Workspace;
use crate::seqs;
use crate::text;

verus! {

/// The live workspaces whose id a workspace row is keyed by or stores.
pub open spec fn stored_as(row: WorkspaceRowView) -> spec_fn(Workspace) -> bool {
    |workspace: Workspace|
        workspace.workspace_id@ == row.label || workspace.workspace_id@ == row.workspace_id
}

/// The row that a workspace row is replaced by, `None` where it stays.
pub open spec fn rekeyed(row: WorkspaceRowView, workspaces: Seq<Workspace>) -> Option<
    WorkspaceRowView,
> {
    let at = seqs::first_where(workspaces, stored_as(row));
    if at >= workspaces.len() {
        None
    } else {
        let wanted = WorkspaceRowView {
            label: workspaces[at].label@,
            workspace_id: workspaces[at].workspace_id@,
            forum_channel_id: row.forum_channel_id,
        };
        if wanted == row {
            None
        } else {
            Some(wanted)
        }
    }
}

/// Finds the row that a workspace row is replaced by.
pub fn rekey_workspace(row: &WorkspaceRow, workspaces: &Vec<Workspace>) -> (result: Option<
    WorkspaceRow,
>)
    ensures
        match result {
            Some(replacement) => rekeyed(row@, workspaces@) == Some(replacement@),
            None => rekeyed(row@, workspaces@) is None,
        },
{
    let ghost wanted = stored_as(row@);
    let mut at: usize = 0;
    while at < workspaces.len()
        invariant
            at <= workspaces@.len(),
            wanted == stored_as(row@),
            forall|i: int| 0 <= i < at ==> !wanted(#[trigger] workspaces@[i]),
        decreases workspaces@.len() - at,
    {
        let workspace = &workspaces[at];
        let id = workspace.workspace_id.as_str();
        if text::same(id, row.label.as_str()) || text::same(id, row.workspace_id.as_str()) {
            proof {
                seqs::lemma_first_where_is(workspaces@, wanted, at as int);
            }
            if text::same(row.label.as_str(), workspace.label.as_str()) && text::same(
                row.workspace_id.as_str(),
                id,
            ) {
                return None;
            }
            return Some(
                WorkspaceRow {
                    label: text::copy(workspace.label.as_str()),
                    workspace_id: text::copy(id),
                    forum_channel_id: row.forum_channel_id,
                },
            );
        }
        at += 1;
    }
    proof {
        seqs::lemma_first_where_is(workspaces@, wanted, at as int);
    }
    None
}

/// One replacement of a workspace row.
pub struct WorkspaceMigration {
    /// Label of the row to delete.
    pub delete: String,
    /// Row to store afterwards.
    pub upsert: WorkspaceRow,
}

/// The replacements of workspace rows, in the order of the rows.
pub open spec fn workspace_migrations(
    rows: Seq<WorkspaceRow>,
    workspaces: Seq<Workspace>,
) -> Seq<(Seq<char>, WorkspaceRowView)>
    decreases rows.len(),
{
    if rows.len() == 0 {
        Seq::empty()
    } else {
        let before = workspace_migrations(rows.drop_last(), workspaces);
        match rekeyed(rows.last()@, workspaces) {
            Some(row) => before.push((rows.last()@.label, row)),
            None => before,
        }
    }
}

/// The content of replacements of workspace rows.
pub open spec fn migration_views(migrations: Seq<WorkspaceMigration>) -> Seq<
    (Seq<char>, WorkspaceRowView),
> {
    migrations.map_values(
        |migration: WorkspaceMigration| (migration.delete@, migration.upsert@),
    )
}

/// Re-keys the live workspace rows from the old positional-id identity to
/// labels: rows keyed by (or storing) a herdr id get re-keyed to the workspace's
/// label, with the id recorded. Idempotent, as `migrating_workspaces_is_idempotent`
/// states.
pub fn migrate_workspace_ids(rows: &Vec<WorkspaceRow>, workspaces: &Vec<Workspace>) -> (migrations:
    Vec<WorkspaceMigration>)
    ensures
        migration_views(migrations@) == workspace_migrations(rows@, workspaces@),
{
    let mut migrations: Vec<WorkspaceMigration> = Vec::new();
    let mut i: usize = 0;
    assert(migration_views(migrations@) =~= workspace_migrations(rows@.take(0), workspaces@));
    while i < rows.len()
        invariant
            i <= rows@.len(),
            migration_views(migrations@) == workspace_migrations(
                rows@.take(i as int),
                workspaces@,
            ),
        decreases rows@.len() - i,
    {
        let ghost before = migration_views(migrations@);
        assert(rows@.take(i + 1).drop_last() =~= rows@.take(i as int));
        if let Some(upsert) = rekey_workspace(&rows[i], workspaces) {
            let ghost added = (rows@[i as int]@.label, upsert@);
            migrations.push(
                WorkspaceMigration { delete: text::copy(rows[i].label.as_str()), upsert },
            );
            assert(migration_views(migrations@) =~= before.push(added));
        }
        i += 1;
    }
    assert(rows@.take(i as int) =~= rows@);
    migrations
}

/// Whether the workspace that a row is re-keyed to, if it is, is the first one
/// that its new row stands for: no earlier one has the new label as its id.
pub open spec fn rekeys_for_good(row: WorkspaceRowView, workspaces: Seq<Workspace>) -> bool {
    let at = seqs::first_where(workspaces, stored_as(row));
    rekeyed(row, workspaces) is Some ==> forall|i: int|
        0 <= i < at ==> (#[trigger] workspaces[i]).workspace_id@ != workspaces[at].label@
}

/// A re-keyed workspace row stays as it is when it is migrated again.
pub proof fn migrating_a_workspace_twice_changes_nothing(
    row: WorkspaceRowView,
    workspaces: Seq<Workspace>,
)
    requires
        rekeys_for_good(row, workspaces),
    ensures
        rekeyed(row, workspaces) matches Some(changed) ==> rekeyed(changed, workspaces) is None,
{
    if let Some(changed) = rekeyed(row, workspaces) {
        let at = seqs::first_where(workspaces, stored_as(row));
        seqs::lemma_first_where(workspaces, stored_as(row));
        assert forall|i: int| 0 <= i < at implies !stored_as(changed)(#[trigger] workspaces[i]) by {
            assert(!stored_as(row)(workspaces[i]));
            assert(workspaces[i].workspace_id@ != workspaces[at].label@);
        }
        seqs::lemma_first_where_is(workspaces, stored_as(changed), at);
    }
}

/// Rows by their label, which is their key.
pub open spec fn workspace_table(rows: Seq<WorkspaceRow>) -> Map<Seq<char>, WorkspaceRowView>
    decreases rows.len(),
{
    if rows.len() == 0 {
        Map::empty()
    } else {
        workspace_table(rows.drop_last()).insert(rows.last()@.label, rows.last()@)
    }
}

/// The rows once replacements are carried out, one after the other.
pub open spec fn migrated_table(
    table: Map<Seq<char>, WorkspaceRowView>,
    migrations: Seq<(Seq<char>, WorkspaceRowView)>,
) -> Map<Seq<char>, WorkspaceRowView>
    decreases migrations.len(),
{
    if migrations.len() == 0 {
        table
    } else {
        let (delete, upsert) = migrations.last();
        migrated_table(table, migrations.drop_last()).remove(delete).insert(upsert.label, upsert)
    }
}

/// Rows whose labels differ.
pub open spec fn distinct_labels(rows: Seq<WorkspaceRow>) -> bool {
    forall|i: int, j: int|
        0 <= i < j < rows.len() ==> (#[trigger] rows[i])@.label != (#[trigger] rows[j])@.label
}

proof fn lemma_table_holds_rows(rows: Seq<WorkspaceRow>, label: Seq<char>)
    ensures
        workspace_table(rows).contains_key(label) ==> exists|i: int|
            0 <= i < rows.len() && (#[trigger] rows[i])@ == workspace_table(rows)[label]
                && rows[i]@.label == label,
    decreases rows.len(),
{
    if rows.len() > 0 && workspace_table(rows).contains_key(label) {
        let rest = rows.drop_last();
        if rows.last()@.label == label {
            assert(rows[rows.len() - 1]@ == workspace_table(rows)[label]);
        } else {
            lemma_table_holds_rows(rest, label);
            let i = choose|i: int|
                0 <= i < rest.len() && (#[trigger] rest[i])@ == workspace_table(rest)[label]
                    && rest[i]@.label == label;
            assert(rows[i]@ == workspace_table(rows)[label]);
        }
    }
}

proof fn lemma_migrated_rows(
    rows: Seq<WorkspaceRow>,
    count: int,
    workspaces: Seq<Workspace>,
    label: Seq<char>,
)
    requires
        0 <= count <= rows.len(),
        distinct_labels(rows),
        forall|i: int|
            0 <= i < rows.len() ==> rekeys_for_good((#[trigger] rows[i])@, workspaces),
    ensures
        ({
            let table = migrated_table(
                workspace_table(rows),
                workspace_migrations(rows.take(count), workspaces),
            );
            table.contains_key(label) ==> rekeyed(table[label], workspaces) is None || exists|
                i: int,
            |
                count <= i < rows.len() && (#[trigger] rows[i])@ == table[label] && rows[i]@.label
                    == label
        }),
    decreases count,
{
    if count == 0 {
        assert(workspace_migrations(rows.take(0), workspaces) =~= Seq::<
            (Seq<char>, WorkspaceRowView),
        >::empty());
        lemma_table_holds_rows(rows, label);
    } else {
        let row = rows[count - 1]@;
        let before = workspace_migrations(rows.take(count - 1), workspaces);
        assert(rows.take(count).drop_last() =~= rows.take(count - 1));
        lemma_migrated_rows(rows, count - 1, workspaces, label);
        let table = migrated_table(workspace_table(rows), before);
        if let Some(changed) = rekeyed(row, workspaces) {
            migrating_a_workspace_twice_changes_nothing(row, workspaces);
            assert(before.push((row.label, changed)).drop_last() =~= before);
        }
        if table.contains_key(label) && rekeyed(table[label], workspaces) is Some {
            let i = choose|i: int|
                count - 1 <= i < rows.len() && (#[trigger] rows[i])@ == table[label]
                    && rows[i]@.label == label;
            if i == count - 1 {
                assert(rekeyed(row, workspaces) is Some);
            }
        }
    }
}

/// Migrating the workspace rows a second time, once the replacements of the first
/// pass are carried out, replaces nothing.
pub proof fn migrating_workspaces_is_idempotent(
    rows: Seq<WorkspaceRow>,
    again: Seq<WorkspaceRow>,
    workspaces: Seq<Workspace>,
)
    requires
        distinct_labels(rows),
        forall|i: int|
            0 <= i < rows.len() ==> rekeys_for_good((#[trigger] rows[i])@, workspaces),
        forall|i: int|
            0 <= i < again.len() ==> migrated_table(
                workspace_table(rows),
                workspace_migrations(rows, workspaces),
            ).contains_pair((#[trigger] again[i])@.label, again[i]@),
    ensures
        workspace_migrations(again, workspaces) == Seq::<(Seq<char>, WorkspaceRowView)>::empty(),
    decreases again.len(),
{
    if again.len() > 0 {
        let rest = again.drop_last();
        assert forall|i: int| 0 <= i < rest.len() implies migrated_table(
            workspace_table(rows),
            workspace_migrations(rows, workspaces),
        ).contains_pair((#[trigger] rest[i])@.label, rest[i]@) by {
            assert(rest[i] == again[i]);
        }
        migrating_workspaces_is_idempotent(rows, rest, workspaces);
        assert(rows.take(rows.len() as int) =~= rows);
        assert(again[again.len() - 1] == again.last());
        lemma_migrated_rows(rows, rows.len() as int, workspaces, again.last()@.label);
    }
}

/// The live workspaces whose id a session row is stored under.
pub open spec fn labelled_by(label: Seq<char>) -> spec_fn(Workspace) -> bool {
    |workspace: Workspace| workspace.workspace_id@ == label
}

/// The row that a session row is replaced by, `None` where it stays.
pub open spec fn relabelled(row: SessionRowView, workspaces: Seq<Workspace>) -> Option<
    SessionRowView,
> {
    let at = seqs::first_where(workspaces, labelled_by(row.workspace_label));
    if at >= workspaces.len() || workspaces[at].label@ == row.workspace_label {
        None
    } else {
        Some(SessionRowView { workspace_label: workspaces[at].label@, ..row })
    }
}

/// Re-keys a session row from the old positional-id identity to labels: a
/// session whose workspace id matches a live herdr workspace gets the
/// workspace's label. Run after the workspaces were migrated.
pub fn migrate_session_label(row: &SessionRow, workspaces: &Vec<Workspace>) -> (result: Option<
    SessionRow,
>)
    ensures
        match result {
            Some(replacement) => relabelled(row@, workspaces@) == Some(replacement@),
            None => relabelled(row@, workspaces@) is None,
        },
{
    let ghost wanted = labelled_by(row@.workspace_label);
    let mut at: usize = 0;
    while at < workspaces.len()
        invariant
            at <= workspaces@.len(),
            wanted == labelled_by(row@.workspace_label),
            forall|i: int| 0 <= i < at ==> !wanted(#[trigger] workspaces@[i]),
        decreases workspaces@.len() - at,
    {
        let workspace = &workspaces[at];
        if text::same(workspace.workspace_id.as_str(), row.workspace_label.as_str()) {
            proof {
                seqs::lemma_first_where_is(workspaces@, wanted, at as int);
            }
            if text::same(workspace.label.as_str(), row.workspace_label.as_str()) {
                return None;
            }
            let mut updated = row.copy();
            updated.workspace_label = text::copy(workspace.label.as_str());
            return Some(updated);
        }
        at += 1;
    }
    proof {
        seqs::lemma_first_where_is(workspaces@, wanted, at as int);
    }
    None
}

/// The session rows to store, in the order of the rows.
pub open spec fn session_migrations(rows: Seq<SessionRow>, workspaces: Seq<Workspace>) -> Seq<
    SessionRowView,
>
    decreases rows.len(),
{
    if rows.len() == 0 {
        Seq::empty()
    } else {
        let before = session_migrations(rows.drop_last(), workspaces);
        match relabelled(rows.last()@, workspaces) {
            Some(row) => before.push(row),
            None => before,
        }
    }
}

/// The content of session rows.
pub open spec fn row_views(rows: Seq<SessionRow>) -> Seq<SessionRowView> {
    rows.map_values(|row: SessionRow| row@)
}

/// Re-keys session rows from the old positional-id identity to labels.
/// Idempotent, as `migrating_sessions_is_idempotent` states.
pub fn migrate_session_labels(rows: &Vec<SessionRow>, workspaces: &Vec<Workspace>) -> (updated: Vec<
    SessionRow,
>)
    ensures
        row_views(updated@) == session_migrations(rows@, workspaces@),
{
    let mut updated: Vec<SessionRow> = Vec::new();
    let mut i: usize = 0;
    assert(row_views(updated@) =~= session_migrations(rows@.take(0), workspaces@));
    while i < rows.len()
        invariant
            i <= rows@.len(),
            row_views(updated@) == session_migrations(rows@.take(i as int), workspaces@),
        decreases rows@.len() - i,
    {
        let ghost before = row_views(updated@);
        assert(rows@.take(i + 1).drop_last() =~= rows@.take(i as int));
        if let Some(row) = migrate_session_label(&rows[i], workspaces) {
            let ghost added = row@;
            updated.push(row);
            assert(row_views(updated@) =~= before.push(added));
        }
        i += 1;
    }
    assert(rows@.take(i as int) =~= rows@);
    updated
}

/// Whether the label that a session row is given, if it is given one, stays: a
/// workspace that has it as its id is also called so.
pub open spec fn relabels_for_good(row: SessionRowView, workspaces: Seq<Workspace>) -> bool {
    relabelled(row, workspaces) matches Some(changed) ==> forall|i: int|
        0 <= i < workspaces.len() && (#[trigger] workspaces[i]).workspace_id@
            == changed.workspace_label ==> workspaces[i].label@ == changed.workspace_label
}

/// A re-labelled session row stays as it is when it is migrated again.
pub proof fn migrating_a_session_twice_changes_nothing(
    row: SessionRowView,
    workspaces: Seq<Workspace>,
)
    requires
        relabels_for_good(row, workspaces),
    ensures
        relabelled(row, workspaces) matches Some(changed) ==> relabelled(changed, workspaces)
            is None,
{
    if let Some(changed) = relabelled(row, workspaces) {
        seqs::lemma_first_where(workspaces, labelled_by(changed.workspace_label));
        let again = seqs::first_where(workspaces, labelled_by(changed.workspace_label));
        if again < workspaces.len() {
            assert(workspaces[again].workspace_id@ == changed.workspace_label);
        }
    }
}

/// The session rows once a pass over them is carried out.
pub open spec fn migrated_sessions(rows: Seq<SessionRow>, workspaces: Seq<Workspace>) -> Seq<
    SessionRowView,
> {
    rows.map_values(
        |row: SessionRow|
            match relabelled(row@, workspaces) {
                Some(changed) => changed,
                None => row@,
            },
    )
}

/// Migrating the session rows a second time, once those of the first pass are
/// stored, changes nothing.
pub proof fn migrating_sessions_is_idempotent(
    rows: Seq<SessionRow>,
    again: Seq<SessionRow>,
    workspaces: Seq<Workspace>,
)
    requires
        forall|i: int|
            0 <= i < rows.len() ==> relabels_for_good((#[trigger] rows[i])@, workspaces),
        forall|i: int|
            0 <= i < again.len() ==> migrated_sessions(rows, workspaces).contains(
                (#[trigger] again[i])@,
            ),
    ensures
        session_migrations(again, workspaces) == Seq::<SessionRowView>::empty(),
    decreases again.len(),
{
    if again.len() > 0 {
        let rest = again.drop_last();
        assert forall|i: int| 0 <= i < rest.len() implies migrated_sessions(
            rows,
            workspaces,
        ).contains((#[trigger] rest[i])@) by {
            assert(rest[i] == again[i]);
        }
        migrating_sessions_is_idempotent(rows, rest, workspaces);
        assert(again[again.len() - 1] == again.last());
        let done = migrated_sessions(rows, workspaces);
        let i = choose|i: int| 0 <= i < done.len() && done[i] == again.last()@;
        migrating_a_session_twice_changes_nothing(rows[i]@, workspaces);
    }
}

} // verus!
