//! File-system paths as text, with `/` between their components.

use vstd::prelude::*;

use crate::error::{BotError, BotResult};
use crate::text;

verus! {

/// A relative path below a base directory.
pub open spec fn joined_path(base: Seq<char>, relative: Seq<char>) -> Seq<char> {
    if base.len() == 0 {
        relative
    } else if base.last() == '/' {
        base + relative
    } else {
        base + "/"@ + relative
    }
}

/// Places a relative path below a base directory.
pub fn join(base: &str, relative: &str) -> (path: String)
    ensures
        path@ == joined_path(base@, relative@),
{
    let length = base.unicode_len();
    if length == 0 {
        text::copy(relative)
    } else if base.get_char(length - 1) == '/' {
        text::join2(base, relative)
    } else {
        text::join3(base, "/", relative)
    }
}

/// A path from the root.
pub open spec fn is_absolute_path(path: Seq<char>) -> bool {
    path.len() > 0 && path[0] == '/'
}

/// Reports whether a path starts at the root.
pub fn is_absolute(path: &str) -> (result: bool)
    ensures
        result == is_absolute_path(path@),
{
    path.unicode_len() > 0 && path.get_char(0) == '/'
}

/// `dirs::home_dir` as text, with characters that are no Unicode replaced. It
/// depends on the environment, so nothing is said of it.
#[verifier::external_body]
pub(crate) fn home_dir() -> (home: Option<String>) {
    dirs::home_dir().map(|path| path.to_string_lossy().into_owned())
}

/// `dirs::config_dir` as text. It depends on the environment, so nothing is
/// said of it.
#[verifier::external_body]
pub(crate) fn config_dir() -> (directory: Option<String>) {
    dirs::config_dir().map(|path| path.to_string_lossy().into_owned())
}

/// `dirs::state_dir` as text. It depends on the environment, so nothing is said
/// of it.
#[verifier::external_body]
pub(crate) fn state_dir() -> (directory: Option<String>) {
    dirs::state_dir().map(|path| path.to_string_lossy().into_owned())
}

/// `dirs::data_local_dir` as text. It depends on the environment, so nothing is
/// said of it.
#[verifier::external_body]
pub(crate) fn data_local_dir() -> (directory: Option<String>) {
    dirs::data_local_dir().map(|path| path.to_string_lossy().into_owned())
}

/// What `Path::strip_prefix` leaves of a path below a base, `None` where the
/// path is not below it.
pub uninterp spec fn below(path: Seq<char>, base: Seq<char>) -> Option<Seq<char>>;

/// `std::path::Path::strip_prefix`: the path relative to a base it starts with,
/// compared component by component.
#[verifier::external_body]
fn strip_base(path: &str, base: &str) -> (relative: Option<String>)
    ensures
        text::opt_text(relative) == below(path@, base@),
{
    std::path::Path::new(path).strip_prefix(base).ok().map(|path| path.display().to_string())
}

/// A path taken from a directory: an absolute one stands for itself.
pub open spec fn path_from(base: Seq<char>, path: Seq<char>) -> Seq<char> {
    if is_absolute_path(path) {
        path
    } else {
        joined_path(base, path)
    }
}

/// Takes a path from a directory.
pub fn resolve(base: &str, path: &str) -> (resolved: String)
    ensures
        resolved@ == path_from(base@, path@),
{
    if is_absolute(path) {
        text::copy(path)
    } else {
        join(base, path)
    }
}

/// A path that starts in the home directory.
pub open spec fn in_home(path: Seq<char>) -> bool {
    path == "~"@ || text::starts_with(path, "~/"@)
}

/// A path with a leading `~` replaced by the home directory, `None` where it
/// needs a home directory and there is none.
pub open spec fn expanded_home(path: Seq<char>, home: Option<Seq<char>>) -> Option<Seq<char>> {
    if !in_home(path) {
        Some(path)
    } else {
        match home {
            None => None,
            Some(directory) => if path == "~"@ {
                Some(directory)
            } else {
                Some(path_from(directory, path.skip(2)))
            },
        }
    }
}

/// Expands a leading `~` using a given home directory.
pub fn expand_home_in(path: &str, home: &Option<String>) -> (result: Option<String>)
    ensures
        text::opt_text(result) == expanded_home(path@, text::opt_text(*home)),
{
    if !text::same(path, "~") && !text::starts(path, "~/") {
        return Some(text::copy(path));
    }
    let directory = match home {
        Some(directory) => directory,
        None => {
            return None;
        },
    };
    if text::same(path, "~") {
        return Some(text::copy(directory.as_str()));
    }
    proof {
        reveal_strlit("~/");
    }
    match text::strip_start(path, "~/") {
        Some(rest) => Some(resolve(directory.as_str(), rest.as_str())),
        None => None,
    }
}

/// Expands a leading `~` using the current user's home directory. A path without
/// one is returned as it is, and the only error is that there is no home
/// directory.
pub fn expand_home(path: &str) -> (result: BotResult<String>)
    ensures
        match result {
            Ok(expanded) => exists|home: Option<Seq<char>>|
                expanded_home(path@, home) == Some(expanded@),
            Err(error) => in_home(path@) && error is HomeDirectoryUnavailable,
        },
        !in_home(path@) ==> (result matches Ok(expanded) && expanded@ == path@),
{
    let home = home_dir();
    match expand_home_in(path, &home) {
        Some(expanded) => {
            assert(expanded_home(path@, text::opt_text(home)) == Some(expanded@));
            Ok(expanded)
        },
        None => Err(BotError::HomeDirectoryUnavailable),
    }
}

/// A path with the home directory at its start replaced by `~`.
pub open spec fn shortened_home(value: Seq<char>, home: Option<Seq<char>>) -> Seq<char> {
    match home {
        None => value,
        Some(directory) => if !text::starts_with(value, directory) {
            value
        } else {
            let suffix = value.skip(directory.len() as int);
            if suffix.len() == 0 {
                "~"@
            } else if suffix[0] == '/' || suffix[0] == '\\' {
                "~"@ + suffix
            } else {
                value
            }
        },
    }
}

/// Replaces a given home directory at the start of a path with `~`.
pub fn shorten_home_in(value: &str, home: &Option<String>) -> (result: String)
    ensures
        result@ == shortened_home(value@, text::opt_text(*home)),
{
    let directory = match home {
        Some(directory) => directory,
        None => {
            return text::copy(value);
        },
    };
    match text::strip_start(value, directory.as_str()) {
        Some(suffix) => {
            if suffix.as_str().is_empty() {
                return text::copy("~");
            }
            let first = suffix.as_str().get_char(0);
            if first == '/' || first == '\\' {
                text::join2("~", suffix.as_str())
            } else {
                text::copy(value)
            }
        },
        None => text::copy(value),
    }
}

/// Replaces an absolute path prefix matching the current home directory with
/// `~`. The result is the path itself or starts with `~`.
pub fn shorten_home(value: &str) -> (result: String)
    ensures
        exists|home: Option<Seq<char>>| result@ == shortened_home(value@, home),
{
    let home = home_dir();
    let result = shorten_home_in(value, &home);
    assert(result@ == shortened_home(value@, text::opt_text(home)));
    result
}

/// A project path relative to the configured base or home directory.
pub open spec fn label_in(
    path: Seq<char>,
    base_path: Seq<char>,
    home: Option<Seq<char>>,
) -> Seq<char> {
    let relative = if base_path.len() == 0 {
        None
    } else {
        match expanded_home(base_path, home) {
            Some(base) => below(path, base),
            None => None,
        }
    };
    label_with(relative, path, home)
}

/// The label of a path whose position below the base is known.
pub open spec fn label_with(
    relative: Option<Seq<char>>,
    path: Seq<char>,
    home: Option<Seq<char>>,
) -> Seq<char> {
    match relative {
        Some(inner) if inner.len() > 0 => inner,
        _ => shortened_home(path, home),
    }
}

/// Formats a project path by its position below the base, or else relative to a
/// given home directory.
pub fn label_below(relative: Option<String>, path: &str, home: &Option<String>) -> (label: String)
    ensures
        label@ == label_with(text::opt_text(relative), path@, text::opt_text(*home)),
{
    match relative {
        Some(inner) => if inner.as_str().is_empty() {
            shorten_home_in(path, home)
        } else {
            inner
        },
        None => shorten_home_in(path, home),
    }
}

/// Formats a project path relative to a base and a given home directory.
pub fn project_label_in(path: &str, base_path: &str, home: &Option<String>) -> (label: String)
    ensures
        label@ == label_in(path@, base_path@, text::opt_text(*home)),
{
    let relative = if base_path.is_empty() {
        None
    } else {
        match expand_home_in(base_path, home) {
            Some(base) => strip_base(path, base.as_str()),
            None => None,
        }
    };
    label_below(relative, path, home)
}

/// Formats a project path relative to the configured base or home directory.
pub fn project_label(path: &str, base_path: &str) -> (label: String)
    ensures
        exists|home: Option<Seq<char>>| label@ == label_in(path@, base_path@, home),
{
    let home = home_dir();
    let label = project_label_in(path, base_path, &home);
    assert(label@ == label_in(path@, base_path@, text::opt_text(home)));
    label
}

/// Shortening an expanded home path gives the path back: a path below the home
/// directory that was written with `~` is shown with `~` again.
pub proof fn shortening_undoes_expanding(path: Seq<char>, home: Seq<char>)
    requires
        in_home(path),
        !is_absolute_path(path.skip(2)),
        home.len() > 0,
        home.last() != '/',
    ensures
        expanded_home(path, Some(home)) matches Some(expanded) && shortened_home(
            expanded,
            Some(home),
        ) == path,
{
    reveal_strlit("~");
    reveal_strlit("~/");
    reveal_strlit("/");
    let expanded = expanded_home(path, Some(home))->0;
    if path == "~"@ {
        assert(expanded.subrange(0, home.len() as int) =~= home);
    } else {
        assert(path.subrange(0, 2) == "~/"@);
        assert(path[0] == path.subrange(0, 2)[0] && path[1] == path.subrange(0, 2)[1]);
        assert(expanded.subrange(0, home.len() as int) =~= home);
        let suffix = expanded.skip(home.len() as int);
        assert(suffix =~= "/"@ + path.skip(2));
        assert("~"@ + suffix =~= path);
    }
}

/// The configuration path below a configuration directory.
pub fn config_path_in(directory: &Option<String>) -> (path: String)
    ensures
        path@ == joined_path(
            match *directory {
                Some(base) => base@,
                None => ".config"@,
            },
            "agentcord/config.toml"@,
        ),
{
    match directory {
        Some(base) => join(base.as_str(), "agentcord/config.toml"),
        None => join(".config", "agentcord/config.toml"),
    }
}

/// The state path below a state directory, or a local data directory where there
/// is none.
pub fn state_path_in(state: &Option<String>, data: &Option<String>) -> (path: String)
    ensures
        path@ == joined_path(
            match (*state, *data) {
                (Some(base), _) => base@,
                (None, Some(base)) => base@,
                (None, None) => ".local/state"@,
            },
            "agentcord/state.sqlite3"@,
        ),
{
    match (state, data) {
        (Some(base), _) => join(base.as_str(), "agentcord/state.sqlite3"),
        (None, Some(base)) => join(base.as_str(), "agentcord/state.sqlite3"),
        (None, None) => join(".local/state", "agentcord/state.sqlite3"),
    }
}

proof fn lemma_join_ends(base: Seq<char>, relative: Seq<char>)
    ensures
        text::ends_with(joined_path(base, relative), relative),
{
    let path = joined_path(base, relative);
    assert(path.subrange(path.len() - relative.len(), path.len() as int) =~= relative);
}

/// Returns the user-specific Agentcord configuration path.
#[must_use]
pub fn config_path() -> (path: String)
    ensures
        exists|base: Seq<char>| path@ == joined_path(base, "agentcord/config.toml"@),
        text::ends_with(path@, "agentcord/config.toml"@),
{
    let directory = config_dir();
    let path = config_path_in(&directory);
    proof {
        let base = match directory {
            Some(base) => base@,
            None => ".config"@,
        };
        assert(path@ == joined_path(base, "agentcord/config.toml"@));
        lemma_join_ends(base, "agentcord/config.toml"@);
    }
    path
}

/// Returns the user-specific SQLite state path.
#[must_use]
pub fn state_path() -> (path: String)
    ensures
        exists|base: Seq<char>| path@ == joined_path(base, "agentcord/state.sqlite3"@),
        text::ends_with(path@, "agentcord/state.sqlite3"@),
{
    let state = state_dir();
    let data = data_local_dir();
    let path = state_path_in(&state, &data);
    proof {
        let base = match (state, data) {
            (Some(base), _) => base@,
            (None, Some(base)) => base@,
            (None, None) => ".local/state"@,
        };
        assert(path@ == joined_path(base, "agentcord/state.sqlite3"@));
        lemma_join_ends(base, "agentcord/state.sqlite3"@);
    }
    path
}

/// What `Path::parent` returns for a path.
pub uninterp spec fn parent_path(path: Seq<char>) -> Option<Seq<char>>;

/// `Path::parent`: the path without its final component, `None` for a root or an
/// empty path. It depends on the text of the path alone.
#[verifier::external_body]
pub(crate) fn parent(path: &str) -> (result: Option<String>)
    ensures
        text::opt_text(result) == parent_path(path@),
{
    std::path::Path::new(path).parent().map(|parent| parent.to_string_lossy().into_owned())
}

/// What `Path::file_name` returns for a path.
pub uninterp spec fn last_component(path: Seq<char>) -> Option<Seq<char>>;

/// `Path::file_name`: the final component of a path, `None` where it ends in `..`
/// or has none. It depends on the text of the path alone.
#[verifier::external_body]
pub(crate) fn file_name(path: &str) -> (result: Option<String>)
    ensures
        text::opt_text(result) == last_component(path@),
{
    std::path::Path::new(path).file_name().map(|name| name.to_string_lossy().into_owned())
}

/// Whether `Path` holds two paths for equal.
pub uninterp spec fn path_equal(left: Seq<char>, right: Seq<char>) -> bool;

/// `Path` equality: the paths have the same components, a function of their texts
/// alone.
#[verifier::external_body]
pub(crate) fn same_path(left: &str, right: &str) -> (result: bool)
    ensures
        result == path_equal(left@, right@),
{
    std::path::Path::new(left) == std::path::Path::new(right)
}

} // verus!
