//! Creating a herdr workspace for a folder path, and completing folder paths.
//!
//! `~` expands to the home directory for both completion and resolution.

use vstd::prelude::*;

use crate::error::{BotError, BotResult};
use crate::herdr::error::HerdrError;
use crate::herdr::model::{CreatedWorkspace, Workspace};
use crate::paths;
use crate::seqs;
use crate::text;

verus! {

/// How many directory suggestions the autocomplete may show (Discord's
/// autocomplete limit).
pub const MAX_PATH_SUGGESTIONS: usize = 25;

/// A typed path with a leading `~` replaced: `None` for the empty input and for
/// `~user` forms.
pub open spec fn expanded(input: Seq<char>, home: Seq<char>) -> Option<Seq<char>> {
    if input.len() == 0 {
        None
    } else if input == "~"@ {
        Some(home)
    } else if text::starts_with(input, "~/"@) {
        Some(paths::path_from(home, input.skip(2)))
    } else if input[0] == '~' {
        None
    } else {
        Some(input)
    }
}

/// Expands a leading `~` or `~/` to `home`; the empty input and other `~user`
/// forms return `None`. Relative and absolute paths pass through unchanged.
pub fn expand_home(input: &str, home: &str) -> (result: Option<String>)
    ensures
        text::opt_text(result) == expanded(input@, home@),
{
    proof {
        reveal_strlit("~/");
        assert("~/"@.len() == 2);
    }
    if input.is_empty() {
        return None;
    }
    if text::same(input, "~") {
        return Some(text::copy(home));
    }
    if let Some(rest) = text::strip_start(input, "~/") {
        return Some(paths::resolve(home, rest.as_str()));
    }
    if input.get_char(0) == '~' {
        return None;
    }
    Some(text::copy(input))
}

/// Makes the error for a workspace that could not be created.
pub fn creation_failed(error: &HerdrError) -> (shown: BotError)
    ensures
        error.is_told("couldn't create the workspace: "@, shown),
{
    error.tell("couldn't create the workspace: ")
}

/// Makes the error for a missing home directory.
pub fn home_unresolved() -> (shown: BotError)
    ensures
        shown.is_other("couldn't resolve your home directory"@),
{
    BotError::Other(text::copy("couldn't resolve your home directory"))
}

/// What was found at a folder path.
pub enum FolderLookup {
    /// Nothing could be found there.
    Missing(String),
    /// Something other than a directory is there.
    NotDirectory,
    /// The path could not be canonicalized.
    Unresolved(String),
    /// A directory, at this canonical path.
    Directory(String),
}

/// Judges what was found at a folder path: only a directory will do. The error
/// is a message for the user.
pub fn resolve_folder(input: &str, lookup: FolderLookup) -> (result: BotResult<String>)
    ensures
        match lookup {
            FolderLookup::Missing(cause) => result matches Err(BotError::Other(shown)) && shown@
                == "`"@ + input@ + "` doesn't exist: "@ + cause@,
            FolderLookup::NotDirectory => result matches Err(BotError::Other(shown)) && shown@
                == "`"@ + input@ + "` is not a directory"@,
            FolderLookup::Unresolved(cause) => result matches Err(BotError::Other(shown)) && shown@
                == "couldn't resolve `"@ + input@ + "`: "@ + cause@,
            FolderLookup::Directory(path) => result == Ok::<String, BotError>(path),
        },
{
    match lookup {
        FolderLookup::Missing(cause) => Err(
            BotError::Other(text::join4("`", input, "` doesn't exist: ", cause.as_str())),
        ),
        FolderLookup::NotDirectory => Err(
            BotError::Other(text::join3("`", input, "` is not a directory")),
        ),
        FolderLookup::Unresolved(cause) => Err(
            BotError::Other(
                text::join4("couldn't resolve `", input, "`: ", cause.as_str()),
            ),
        ),
        FolderLookup::Directory(path) => Ok(path),
    }
}

/// Finds the path that a typed folder means.
pub fn folder_target(input: &str, home: &str) -> (result: BotResult<String>)
    ensures
        match (result, expanded(input@, home@)) {
            (Ok(path), Some(target)) => path@ == target,
            (Err(BotError::Other(shown)), None) => shown@
                == "only `~` expands to your home directory (`~user` is not supported)"@,
            _ => false,
        },
{
    match expand_home(input, home) {
        Some(path) => Ok(path),
        None => Err(
            BotError::Other(
                text::copy(
                    "only `~` expands to your home directory (`~user` is not supported)",
                ),
            ),
        ),
    }
}

/// The label of a workspace for a folder: the folder's name, or the whole path
/// where it has none.
pub open spec fn label_of(cwd: Seq<char>) -> Seq<char> {
    match paths::last_component(cwd) {
        Some(name) => name,
        None => cwd,
    }
}

/// Workspaces with a label.
pub open spec fn labelled(label: Seq<char>) -> spec_fn(Workspace) -> bool {
    |workspace: Workspace| workspace.label@ == label
}

/// Whether a label is given out: unless a workspace has it already.
pub open spec fn label_chosen(
    result: BotResult<String>,
    label: Seq<char>,
    workspaces: Seq<Workspace>,
) -> bool {
    let at = seqs::first_where(workspaces, labelled(label));
    match result {
        Ok(chosen) => at == workspaces.len() && chosen@ == label,
        Err(error) => at < workspaces.len() && error.is_other(
            "a workspace named `"@ + label + "` already exists (`"@
                + workspaces[at].workspace_id@ + "`)"@,
        ),
    }
}

/// Gives out the label of a new workspace, unless a workspace has it already.
pub fn free_label(label: String, workspaces: &Vec<Workspace>) -> (result: BotResult<String>)
    ensures
        label_chosen(result, label@, workspaces@),
{
    let ghost wanted = labelled(label@);
    let mut at: usize = 0;
    while at < workspaces.len()
        invariant
            at <= workspaces@.len(),
            wanted == labelled(label@),
            forall|i: int| 0 <= i < at ==> !wanted(#[trigger] workspaces@[i]),
        decreases workspaces@.len() - at,
    {
        if text::same(workspaces[at].label.as_str(), label.as_str()) {
            proof {
                seqs::lemma_first_where_is(workspaces@, wanted, at as int);
            }
            return Err(
                BotError::Other(
                    text::join5(
                        "a workspace named `",
                        label.as_str(),
                        "` already exists (`",
                        workspaces[at].workspace_id.as_str(),
                        "`)",
                    ),
                ),
            );
        }
        at += 1;
    }
    proof {
        seqs::lemma_first_where_is(workspaces@, wanted, at as int);
    }
    Ok(label)
}

/// Chooses the label of a new workspace. Workspace rows and forums are keyed by
/// label, so a duplicate label is rejected.
pub fn workspace_label(cwd: &str, workspaces: &Vec<Workspace>) -> (result: BotResult<String>)
    ensures
        label_chosen(result, label_of(cwd@), workspaces@),
{
    let label = match paths::file_name(cwd) {
        Some(name) => name,
        None => text::copy(cwd),
    };
    free_label(label, workspaces)
}

/// Tells that a workspace was created.
pub fn created_reply(label: &str, created: &CreatedWorkspace, cwd: &str) -> (reply: String)
    ensures
        reply@ == "created workspace `"@ + label@ + "` ("@ + created.workspace.workspace_id@
            + ") at `"@ + cwd@ + "`"@,
{
    let head = text::join5(
        "created workspace `",
        label,
        "` (",
        created.workspace.workspace_id.as_str(),
        ") at `",
    );
    text::join3(head.as_str(), cwd, "`")
}

/// The parent and file-name parts of a path: a trailing slash (or `..`) makes the
/// whole path the parent, so its children are listed, and a bare relative name
/// has an empty parent.
pub open spec fn path_parts(path: Seq<char>) -> (Seq<char>, Seq<char>) {
    parts_with(path, paths::parent_path(path), paths::last_component(path))
}

/// The directory and the name in a typed path whose parent and last component are
/// known.
pub open spec fn parts_with(
    path: Seq<char>,
    parent: Option<Seq<char>>,
    name: Option<Seq<char>>,
) -> (Seq<char>, Seq<char>) {
    if text::ends_with(path, "/"@) || text::ends_with(path, ".."@) {
        (path, Seq::empty())
    } else {
        (
            match parent {
                Some(parent) => parent,
                None => Seq::empty(),
            },
            match name {
                Some(name) => name,
                None => Seq::empty(),
            },
        )
    }
}

/// Puts the parts of a typed path together from its parent and its last component.
pub fn pair_parts(path: &str, parent: Option<String>, name: Option<String>) -> (parts: (
    String,
    String,
))
    ensures
        (parts.0@, parts.1@) == parts_with(path@, text::opt_text(parent), text::opt_text(name)),
{
    if text::ends(path, "/") || text::ends(path, "..") {
        return (text::copy(path), String::new());
    }
    let directory = match parent {
        Some(parent) => parent,
        None => String::new(),
    };
    let basename = match name {
        Some(name) => name,
        None => String::new(),
    };
    (directory, basename)
}

/// Splits a path into its parent and file-name parts.
pub fn split_path(path: &str) -> (parts: (String, String))
    ensures
        (parts.0@, parts.1@) == path_parts(path@),
{
    pair_parts(path, paths::parent(path), paths::file_name(path))
}

/// A path with a trailing slash; empty stays empty.
pub open spec fn slashed(path: Seq<char>) -> Seq<char> {
    if path.len() == 0 || text::ends_with(path, "/"@) {
        path
    } else {
        path + "/"@
    }
}

/// `path` as a display string with a trailing slash; empty stays empty.
pub fn with_slash(path: &str) -> (result: String)
    ensures
        result@ == slashed(path@),
{
    if path.is_empty() || text::ends(path, "/") {
        text::copy(path)
    } else {
        text::join2(path, "/")
    }
}

/// What completing a path looks for.
pub enum PathQuery {
    /// The suggestions are known without looking.
    Known(Vec<String>),
    /// The directories below `root` whose names start with `basename`.
    Search {
        /// Directory to list.
        root: String,
        /// What precedes a name in a suggestion.
        prefix: String,
        /// Start of the names.
        basename: String,
    },
}

/// The content of what completing a path looks for.
pub ghost enum QueryView {
    Known(Seq<Seq<char>>),
    Search(Seq<char>, Seq<char>, Seq<char>),
}

impl View for PathQuery {
    type V = QueryView;

    open spec fn view(&self) -> QueryView {
        match self {
            PathQuery::Known(suggestions) => QueryView::Known(text::texts(suggestions@)),
            PathQuery::Search { root, prefix, basename } => QueryView::Search(
                root@,
                prefix@,
                basename@,
            ),
        }
    }
}

/// What completing a typed path looks for: nothing typed suggests the home
/// directory, `~` and `~/…` browse from it and keep their form, and `~user` is
/// not supported.
pub open spec fn query_of(input: Seq<char>, home: Seq<char>) -> QueryView {
    if input.len() == 0 {
        QueryView::Known(seq!["~/"@])
    } else if text::starts_with(input, "~/"@) {
        let (parent, basename) = path_parts(input.skip(2));
        QueryView::Search(
            paths::path_from(home, parent),
            if slashed(parent).len() == 0 {
                "~/"@
            } else {
                "~/"@ + slashed(parent)
            },
            basename,
        )
    } else if input == "~"@ {
        QueryView::Search(home, "~/"@, Seq::empty())
    } else if input[0] == '~' {
        QueryView::Known(Seq::empty())
    } else {
        let (parent, basename) = path_parts(input);
        QueryView::Search(
            if parent.len() == 0 {
                "."@
            } else {
                parent
            },
            slashed(parent),
            basename,
        )
    }
}

/// Finds out what completing a typed path looks for.
pub fn path_query(input: &str, home: &str) -> (query: PathQuery)
    ensures
        query@ == query_of(input@, home@),
{
    proof {
        reveal_strlit("~/");
        assert("~/"@.len() == 2);
    }
    let mut known: Vec<String> = Vec::new();
    assert(text::texts(known@) =~= Seq::<Seq<char>>::empty());
    if input.is_empty() {
        known.push(text::copy("~/"));
        assert(text::texts(known@) =~= seq!["~/"@]);
        return PathQuery::Known(known);
    }
    if let Some(rest) = text::strip_start(input, "~/") {
        let (parent, basename) = split_path(rest.as_str());
        let relative = with_slash(parent.as_str());
        let prefix = if relative.as_str().is_empty() {
            text::copy("~/")
        } else {
            text::join2("~/", relative.as_str())
        };
        return PathQuery::Search { root: paths::resolve(home, parent.as_str()), prefix, basename };
    }
    if text::same(input, "~") {
        return PathQuery::Search {
            root: text::copy(home),
            prefix: text::copy("~/"),
            basename: String::new(),
        };
    }
    if input.get_char(0) == '~' {
        return PathQuery::Known(known);
    }
    let (parent, basename) = split_path(input);
    let prefix = with_slash(parent.as_str());
    let root = if parent.as_str().is_empty() {
        text::copy(".")
    } else {
        parent
    };
    PathQuery::Search { root, prefix, basename }
}

/// One entry of a directory.
pub struct DirectoryEntry {
    /// Name of the entry.
    pub name: String,
    /// Whether the entry is a directory, or a link to one.
    pub is_directory: bool,
}

/// An entry that completes a path: a directory whose name starts as typed, which
/// is not hidden unless a dot was typed.
pub open spec fn completes(entry: DirectoryEntry, basename: Seq<char>) -> bool {
    &&& entry.is_directory
    &&& text::starts_with(entry.name@, basename)
    &&& text::starts_with(entry.name@, "."@) ==> text::starts_with(basename, "."@)
}

/// A suggestion with the key by which it is sorted.
pub open spec fn suggestion(prefix: Seq<char>, name: Seq<char>) -> (Seq<char>, Seq<char>) {
    (text::lowercase(prefix + name + "/"@), prefix + name + "/"@)
}

/// The suggestions for a directory, in the order of its entries.
pub open spec fn suggestions_of(
    prefix: Seq<char>,
    basename: Seq<char>,
    entries: Seq<DirectoryEntry>,
) -> Seq<(Seq<char>, Seq<char>)>
    decreases entries.len(),
{
    if entries.len() == 0 {
        Seq::empty()
    } else {
        let before = suggestions_of(prefix, basename, entries.drop_last());
        if completes(entries.last(), basename) {
            before.push(suggestion(prefix, entries.last().name@))
        } else {
            before
        }
    }
}

/// What is suggested for a directory: sorted without regard to case, and as many
/// as fit.
pub open spec fn completions(
    prefix: Seq<char>,
    basename: Seq<char>,
    entries: Seq<DirectoryEntry>,
) -> Seq<Seq<char>> {
    seqs::at_most(
        text::sorted_keyed(suggestions_of(prefix, basename, entries)).map_values(
            |item: (Seq<char>, Seq<char>)| item.1,
        ),
        MAX_PATH_SUGGESTIONS as nat,
    )
}

/// Directory completions for a folder path: every directory under the input's
/// parent whose name starts with the input's basename, each with a trailing slash
/// so the user can keep typing deeper. Hidden entries are skipped unless the
/// input's basename starts with a dot.
pub fn complete_path(prefix: &str, basename: &str, entries: &Vec<DirectoryEntry>) -> (suggestions:
    Vec<String>)
    ensures
        text::texts(suggestions@) == completions(prefix@, basename@, entries@),
        suggestions@.len() <= MAX_PATH_SUGGESTIONS,
{
    let show_hidden = text::starts(basename, ".");
    let mut items: Vec<(String, String)> = Vec::new();
    let mut i: usize = 0;
    assert(text::keyed_views(items@) =~= suggestions_of(prefix@, basename@, entries@.take(0)));
    while i < entries.len()
        invariant
            i <= entries@.len(),
            show_hidden == text::starts_with(basename@, "."@),
            text::keyed_views(items@) == suggestions_of(
                prefix@,
                basename@,
                entries@.take(i as int),
            ),
        decreases entries@.len() - i,
    {
        let entry = &entries[i];
        let name = entry.name.as_str();
        let ghost before = text::keyed_views(items@);
        assert(entries@.take(i + 1).drop_last() =~= entries@.take(i as int));
        if entry.is_directory && text::starts(name, basename) && (show_hidden || !text::starts(
            name,
            ".",
        )) {
            let shown = text::join3(prefix, name, "/");
            let key = text::to_lowercase(shown.as_str());
            items.push((key, shown));
            assert(text::keyed_views(items@) =~= before.push(suggestion(prefix@, name@)));
        }
        i += 1;
    }
    assert(entries@.take(i as int) =~= entries@);
    let sorted = text::sort_keyed(items);
    let ghost all = text::sorted_keyed(suggestions_of(prefix@, basename@, entries@));
    let ghost wanted = all.map_values(|item: (Seq<char>, Seq<char>)| item.1);
    let mut suggestions: Vec<String> = Vec::new();
    let mut k: usize = 0;
    while k < sorted.len() && k < MAX_PATH_SUGGESTIONS
        invariant
            k <= sorted@.len(),
            k <= MAX_PATH_SUGGESTIONS,
            suggestions@.len() == k,
            forall|j: int| 0 <= j < k ==> (#[trigger] suggestions@[j])@ == sorted@[j].1@,
        decreases sorted@.len() - k,
    {
        suggestions.push(text::copy(sorted[k].1.as_str()));
        k += 1;
    }
    proof {
        assert(text::keyed_views(sorted@).len() == sorted@.len());
        assert forall|j: int| 0 <= j < sorted@.len() implies wanted[j] == #[trigger] sorted@[j].1@ by {
            assert(text::keyed_views(sorted@)[j] == (sorted@[j].0@, sorted@[j].1@));
        }
        assert(text::texts(suggestions@) =~= seqs::at_most(wanted, MAX_PATH_SUGGESTIONS as nat));
    }
    suggestions
}

proof fn lemma_suggestions(
    prefix: Seq<char>,
    basename: Seq<char>,
    entries: Seq<DirectoryEntry>,
    at: int,
)
    requires
        0 <= at < suggestions_of(prefix, basename, entries).len(),
    ensures
        exists|i: int|
            0 <= i < entries.len() && completes(#[trigger] entries[i], basename) && suggestions_of(
                prefix,
                basename,
                entries,
            )[at] == suggestion(prefix, entries[i].name@),
    decreases entries.len(),
{
    let rest = entries.drop_last();
    let before = suggestions_of(prefix, basename, rest);
    if at < before.len() {
        lemma_suggestions(prefix, basename, rest, at);
        let i = choose|i: int|
            0 <= i < rest.len() && completes(#[trigger] rest[i], basename) && before[at]
                == suggestion(prefix, rest[i].name@);
        assert(entries[i] == rest[i]);
    } else {
        assert(completes(entries[entries.len() - 1], basename));
    }
}

/// Every suggestion is a directory whose name starts as typed.
pub proof fn suggestions_are_directories(
    prefix: Seq<char>,
    basename: Seq<char>,
    entries: Seq<DirectoryEntry>,
    at: int,
)
    requires
        0 <= at < completions(prefix, basename, entries).len(),
    ensures
        exists|i: int|
            0 <= i < entries.len() && completes(#[trigger] entries[i], basename) && completions(
                prefix,
                basename,
                entries,
            )[at] == prefix + entries[i].name@ + "/"@,
{
    broadcast use vstd::seq_lib::group_to_multiset_ensures;

    let unsorted = suggestions_of(prefix, basename, entries);
    let sorted = text::sorted_keyed(unsorted);
    text::sorting_keeps_the_texts(unsorted);
    assert(completions(prefix, basename, entries)[at] == sorted[at].1);
    assert(sorted.contains(sorted[at]));
    assert(sorted.to_multiset().count(sorted[at]) > 0);
    assert(unsorted.contains(sorted[at]));
    let k = choose|k: int| 0 <= k < unsorted.len() && unsorted[k] == sorted[at];
    lemma_suggestions(prefix, basename, entries, k);
}

} // verus!
