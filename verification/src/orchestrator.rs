use vstd::prelude::*;
use crate::configs::{ConfigError, SearchDirectory};
use crate::paths::{base_name, base_name_spec};
use crate::text::{chars_of, string_of};

verus! {

/// Why the program cannot start.
#[derive(Debug, Clone, Copy, PartialEq, Eq, Structural)]
pub enum StartupError {
    /// The configuration gives neither a search root that exists nor a bookmark.
    Configuration(ConfigError),
    /// The cache directory cannot be written to.
    CacheNotWritable,
    /// The picker is needed, and the output is no terminal.
    NoTerminal,
}

/// The code with which the process ends after a normal run, a cancelled picker included.
pub const EXIT_OK: u8 = 0;

/// The code with which the process ends after a failure at startup or after the selection.
pub const EXIT_FAILURE: u8 = 1;

/// What stands in the way of a start, the configuration being looked at before the cache
/// directory, and that before the terminal: the configuration must give a search root
/// that exists, or a bookmark.
pub open spec fn startup_spec(
    search_dirs: Result<Vec<SearchDirectory>, ConfigError>,
    bookmarks: nat,
    cache_writable: bool,
    is_terminal: bool,
) -> Result<(), StartupError> {
    if search_dirs is Err && bookmarks == 0 {
        Err(StartupError::Configuration(search_dirs->Err_0))
    } else if !cache_writable {
        Err(StartupError::CacheNotWritable)
    } else if !is_terminal {
        Err(StartupError::NoTerminal)
    } else {
        Ok(())
    }
}

/// Checks that the program can start.
pub fn validate_startup(
    search_dirs: &Result<Vec<SearchDirectory>, ConfigError>,
    bookmarks: usize,
    cache_writable: bool,
    is_terminal: bool,
) -> (checked: Result<(), StartupError>)
    ensures
        checked == startup_spec(*search_dirs, bookmarks as nat, cache_writable, is_terminal),
{
    if let Err(error) = search_dirs {
        if bookmarks == 0 {
            return Err(StartupError::Configuration(*error));
        }
    }
    if !cache_writable {
        Err(StartupError::CacheNotWritable)
    } else if !is_terminal {
        Err(StartupError::NoTerminal)
    } else {
        Ok(())
    }
}

/// The code with which the process ends: zero unless something failed.
pub fn exit_code(failed: bool) -> (code: u8)
    ensures
        code == if failed {
            EXIT_FAILURE
        } else {
            EXIT_OK
        },
{
    if failed {
        EXIT_FAILURE
    } else {
        EXIT_OK
    }
}

/// What the picker's answer stands for.
#[derive(Debug, Clone, PartialEq, Eq)]
pub enum Selection {
    /// The name of a session of the local scan.
    Local(String),
    /// The clone of a remote repository at `path`; `name` is the name of its session.
    Remote { path: String, name: String },
}

/// The mark in front of the answer for a remote selection.
pub open spec fn remote_mark() -> Seq<char> {
    "remote:"@
}

/// The answer starts with the mark of a remote selection.
pub open spec fn is_remote_answer(answer: Seq<char>) -> bool {
    answer.len() >= remote_mark().len() && answer.take(remote_mark().len() as int)
        == remote_mark()
}

/// Reads the picker's answer: an answer with the mark of a remote selection names the
/// clone's path behind the mark, and the session is named after the directory, or
/// `unknown` where the path ends in no name; any other answer is the name of a local
/// session.
pub fn read_selection(answer: &str) -> (selection: Selection)
    ensures
        match selection {
            Selection::Local(name) => !is_remote_answer(answer@) && name@ == answer@,
            Selection::Remote { path, name } => {
                &&& is_remote_answer(answer@)
                &&& path@ == answer@.skip(remote_mark().len() as int)
                &&& name@ == match base_name_spec(path@) {
                    Some(base) => base,
                    None => "unknown"@,
                }
            },
        },
{
    let chars = chars_of(answer);
    let mark = chars_of("remote:");
    proof {
        reveal_strlit("remote:");
    }
    if crate::text::matches_at(&chars, &mark, 0) {
        let rest = crate::paths::slice_of(&chars, mark.len(), chars.len());
        proof {
            assert(chars@.subrange(0, mark@.len() as int) =~= chars@.take(mark@.len() as int));
            assert(rest@ =~= chars@.skip(mark@.len() as int));
        }
        let path = string_of(&rest);
        let name = match base_name(path.as_str()) {
            Some(base) => base,
            None => "unknown".to_string(),
        };
        Selection::Remote { path, name }
    } else {
        proof {
            if is_remote_answer(answer@) {
                assert(chars@.subrange(0, mark@.len() as int) =~= chars@.take(mark@.len() as int));
            }
        }
        Selection::Local(answer.to_string())
    }
}

} // verus!
