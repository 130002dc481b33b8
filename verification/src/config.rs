//! Configuration of the terminal client, and what it checks before it starts.

use std::path::PathBuf;

use vstd::prelude::*;
use vstd::utf8::encode_utf8;

verus! {

/// `std::path::PathBuf`, which the library only hands on.
#[verifier::external_type_specification]
#[verifier::external_body]
pub struct ExPathBuf(std::path::PathBuf);

/// Configuration of the terminal client.
pub struct TuiConfig {
    /// Override of the daemon's socket path.
    pub socket_path: Option<PathBuf>,
    /// What is logged when `RUST_LOG` is unset.
    pub log_level: String,
}

/// The override if there is one, else the default.
pub fn resolve_socket_path(override_path: Option<PathBuf>, default_path: PathBuf) -> (r: PathBuf)
    ensures
        r == (match override_path {
            Some(path) => path,
            None => default_path,
        }),
{
    match override_path {
        Some(path) => path,
        None => default_path,
    }
}

/// The client refuses to attach from inside one of the daemon's own panes:
/// the pane's output would feed back into itself. `pane` is the number that
/// the daemon gave the pane's shell.
pub fn refuse_nesting(pane: Option<&str>) -> (r: Result<(), String>)
    ensures
        r is Ok <==> pane is None,
        r matches Err(text) ==> text@ == "this shell is already inside tepegoz pane "@ + (pane->0)@
            + ". Detach first (Ctrl-b d) and run `tepegoz tui` from your outer terminal."@,
{
    match pane {
        Some(id) => Err(
            String::from_str("this shell is already inside tepegoz pane ").concat(id).concat(
                ". Detach first (Ctrl-b d) and run `tepegoz tui` from your outer terminal.",
            ),
        ),
        None => Ok(()),
    }
}

/// The client needs the daemon's socket. `shown` is its path written out.
pub fn require_socket(shown: &str, exists: bool) -> (r: Result<(), String>)
    ensures
        r is Ok <==> exists,
        r matches Err(text) ==> text@ == "no daemon socket at "@ + shown@
            + " — is `tepegoz daemon` running?"@,
{
    if exists {
        Ok(())
    } else {
        Err(
            String::from_str("no daemon socket at ").concat(shown).concat(
                " — is `tepegoz daemon` running?",
            ),
        )
    }
}

/// What separates the names in a path.
pub const SLASH: u8 = 0x2f;

/// The path of `name` in the directory `base`, both as bytes. `name` is
/// relative.
pub open spec fn path_in(base: Seq<u8>, name: Seq<u8>) -> Seq<u8> {
    if base.len() == 0 || base.last() == SLASH {
        base + name
    } else {
        base.push(SLASH) + name
    }
}

/// The path of `name` in the directory `base`.
pub fn join_path(base: Vec<u8>, name: &str) -> (r: Vec<u8>)
    ensures
        r@ == path_in(base@, encode_utf8(name@)),
{
    let mut path = base;
    let n: usize = path.len();
    if n > 0 && path[n - 1] != SLASH {
        path.push(SLASH);
    }
    path.extend_from_slice(name.as_bytes());
    assert(path@ =~= path_in(base@, encode_utf8(name@)));
    path
}

/// Where the client logs: the file that it was told, else its own file in the
/// user's cache directory, else in the directory for temporary files. Paths
/// are bytes.
pub open spec fn log_path(
    log_file: Option<Seq<u8>>,
    cache_home: Option<Seq<u8>>,
    home: Option<Seq<u8>>,
) -> Seq<u8> {
    match log_file {
        Some(path) => path,
        None => {
            let base = match (cache_home, home) {
                (Some(base), _) => base,
                (None, Some(home)) => path_in(home, encode_utf8(".cache"@)),
                (None, None) => encode_utf8("/tmp"@),
            };
            path_in(path_in(base, encode_utf8("tepegoz"@)), encode_utf8("tui.log"@))
        },
    }
}

/// The bytes of an optional path.
pub open spec fn bytes_of(path: Option<Vec<u8>>) -> Option<Seq<u8>> {
    match path {
        Some(path) => Some(path@),
        None => None,
    }
}

/// Where the client logs, from the values of `TEPEGOZ_LOG_FILE`,
/// `XDG_CACHE_HOME` and `HOME`.
pub fn resolve_log_path(
    log_file: Option<Vec<u8>>,
    cache_home: Option<Vec<u8>>,
    home: Option<Vec<u8>>,
) -> (r: Vec<u8>)
    ensures
        r@ == log_path(bytes_of(log_file), bytes_of(cache_home), bytes_of(home)),
{
    if let Some(path) = log_file {
        return path;
    }
    let base: Vec<u8> = match (cache_home, home) {
        (Some(base), _) => base,
        (None, Some(home)) => join_path(home, ".cache"),
        (None, None) => "/tmp".as_bytes_vec(),
    };
    join_path(join_path(base, "tepegoz"), "tui.log")
}

} // verus!
