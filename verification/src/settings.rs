//! Where the plugin finds Herdr's socket, and where it keeps its log.
use vstd::prelude::*;
use vstd::utf8::encode_utf8;

verus! {

/// The socket to use where none is configured.
pub open spec fn default_socket_path() -> Seq<char> {
    "/tmp/herdr.sock"@
}

/// The socket to use: the configured one, or the default.
pub fn resolve_socket_path(configured: Option<String>) -> (path: String)
    ensures
        path@ == (match configured {
            Some(configured) => configured@,
            None => default_socket_path(),
        }),
{
    match configured {
        Some(configured) => configured,
        None => "/tmp/herdr.sock".to_owned(),
    }
}

/// The byte `/`, which separates the parts of a path.
pub const SEPARATOR: u8 = 47;

/// Where the log goes below the home directory.
pub open spec fn state_dir_below_home() -> Seq<u8> {
    encode_utf8(".local/state/herdr-caffeinate"@)
}

/// The path `below` under the directory `dir`, with one separator between them.
pub open spec fn joined(dir: Seq<u8>, below: Seq<u8>) -> Seq<u8> {
    if dir.len() == 0 || dir.last() == SEPARATOR {
        dir + below
    } else {
        dir.push(SEPARATOR) + below
    }
}

/// Neither the state directory nor the home directory is known.
#[derive(Debug, Clone, Copy, PartialEq, Eq, Structural)]
pub struct NoStateDir;

impl NoStateDir {
    /// A sentence for the user.
    pub fn message(&self) -> (message: &'static str)
        ensures
            message@ == "HERDR_PLUGIN_STATE_DIR is unset and HOME is unavailable"@,
    {
        "HERDR_PLUGIN_STATE_DIR is unset and HOME is unavailable"
    }
}

/// The directory for the log: the configured one, or the plugin's own below the home directory.
/// Paths are bytes, which need not be Unicode.
pub fn resolve_state_dir(state_dir: Option<Vec<u8>>, home_dir: Option<Vec<u8>>) -> (dir: Result<
    Vec<u8>,
    NoStateDir,
>)
    ensures
        match (state_dir, home_dir) {
            (Some(state_dir), _) => dir matches Ok(dir) && dir@ == state_dir@,
            (None, Some(home)) => dir matches Ok(dir) && dir@ == joined(
                home@,
                state_dir_below_home(),
            ),
            (None, None) => dir is Err,
        },
{
    if let Some(state_dir) = state_dir {
        return Ok(state_dir);
    }
    match home_dir {
        Some(home) => {
            let mut dir = home;
            let length: usize = dir.len();
            if length > 0 && dir[length - 1] != SEPARATOR {
                dir.push(SEPARATOR);
            }
            let below = ".local/state/herdr-caffeinate".as_bytes();
            let ghost parent = dir@;
            for at in 0..below.len()
                invariant
                    dir@ == parent + below@.take(at as int),
            {
                dir.push(below[at]);
                assert(below@.take(at + 1) =~= below@.take(at as int).push(below@[at as int]));
            }
            assert(below@.take(below@.len() as int) =~= below@);
            Ok(dir)
        },
        None => Err(NoStateDir),
    }
}

} // verus!
