//! Cross-compiling the agent for every target.

use vstd::prelude::*;
use vstd::utf8::encode_utf8;

use crate::tasks::preflight::{ensure_on_path, probe_complaint, Probe};
use crate::text::{decimal, decimal_string, parse_unsigned, texts, trim, trimmed, unsigned_value};

verus! {

/// The agent's targets, the ones for Linux first.
pub open spec fn agent_target_names() -> Seq<Seq<char>> {
    seq![
        "x86_64-unknown-linux-musl"@,
        "aarch64-unknown-linux-musl"@,
        "x86_64-apple-darwin"@,
        "aarch64-apple-darwin"@,
    ]
}

/// The agent's targets.
pub fn agent_targets() -> (r: Vec<String>)
    ensures
        texts(r@) == agent_target_names(),
{
    let mut v: Vec<String> = Vec::new();
    v.push(String::from_str("x86_64-unknown-linux-musl"));
    v.push(String::from_str("aarch64-unknown-linux-musl"));
    v.push(String::from_str("x86_64-apple-darwin"));
    v.push(String::from_str("aarch64-apple-darwin"));
    assert(texts(v@) =~= agent_target_names());
    v
}

/// What is said when cargo is missing.
pub open spec fn cargo_hint() -> Seq<char> {
    "cargo is required — install Rust via https://rustup.rs and retry"@
}

/// What is said when zig is missing.
pub open spec fn zig_hint() -> Seq<char> {
    "zig is required for cross-compilation — install via https://ziglang.org/download/ (or `brew install zig`)"@
}

/// What is said when `cargo-zigbuild` is missing.
pub open spec fn zigbuild_hint() -> Seq<char> {
    "cargo-zigbuild is required — install via `cargo install cargo-zigbuild` (https://github.com/rust-cross/cargo-zigbuild)"@
}

/// The three tools in the order in which they are checked; the first that is
/// missing is named.
pub open spec fn tools_verdict(cargo: Probe, zig: Probe, zigbuild: Probe) -> Option<Seq<char>> {
    if !(cargo is Started) {
        Some(probe_complaint("cargo"@, cargo_hint(), cargo))
    } else if !(zig is Started) {
        Some(probe_complaint("zig"@, zig_hint(), zig))
    } else if !(zigbuild is Started) {
        Some(probe_complaint("cargo-zigbuild"@, zigbuild_hint(), zigbuild))
    } else {
        None
    }
}

/// Checks that the tools are there.
pub fn preflight(cargo: &Probe, zig: &Probe, zigbuild: &Probe) -> (r: Result<(), String>)
    ensures
        (match r {
            Ok(_) => None,
            Err(text) => Some(text@),
        }) == tools_verdict(*cargo, *zig, *zigbuild),
{
    match ensure_on_path(
        "cargo",
        "cargo is required — install Rust via https://rustup.rs and retry",
        cargo,
    ) {
        Err(text) => return Err(text),
        Ok(_) => {},
    }
    match ensure_on_path(
        "zig",
        "zig is required for cross-compilation — install via https://ziglang.org/download/ (or `brew install zig`)",
        zig,
    ) {
        Err(text) => return Err(text),
        Ok(_) => {},
    }
    ensure_on_path(
        "cargo-zigbuild",
        "cargo-zigbuild is required — install via `cargo install cargo-zigbuild` (https://github.com/rust-cross/cargo-zigbuild)",
        zigbuild,
    )
}

/// Cargo's arguments for one target.
pub open spec fn build_command(
    subcommand: Seq<char>,
    package: Seq<char>,
    profile: Seq<char>,
    triple: Seq<char>,
) -> Seq<Seq<char>> {
    seq![
        subcommand,
        "--package"@,
        package,
        "--bin"@,
        package,
        "--profile"@,
        profile,
        "--target"@,
        triple,
    ]
}

/// Cargo's arguments for one target.
pub fn cargo_args(subcommand: &str, package: &str, profile: &str, triple: &str) -> (r: Vec<String>)
    ensures
        texts(r@) == build_command(subcommand@, package@, profile@, triple@),
{
    let mut v: Vec<String> = Vec::new();
    v.push(subcommand.to_owned());
    v.push(String::from_str("--package"));
    v.push(package.to_owned());
    v.push(String::from_str("--bin"));
    v.push(package.to_owned());
    v.push(String::from_str("--profile"));
    v.push(profile.to_owned());
    v.push(String::from_str("--target"));
    v.push(triple.to_owned());
    assert(texts(v@) =~= build_command(subcommand@, package@, profile@, triple@));
    v
}

/// Cargo's arguments for building the agent.
pub fn agent_args(triple: &str) -> (r: Vec<String>)
    ensures
        texts(r@) == build_command(
            "zigbuild"@,
            "tepegoz-agent"@,
            "release-agent"@,
            triple@,
        ),
{
    cargo_args("zigbuild", "tepegoz-agent", "release-agent", triple)
}

/// A build has to succeed. `exit` is how cargo ended, written out.
pub fn build_outcome(subcommand: &str, triple: &str, success: bool, exit: &str) -> (r: Result<
    (),
    String,
>)
    ensures
        r is Ok <==> success,
        r matches Err(text) ==> text@ == "cargo "@ + subcommand@ + " failed for "@ + triple@
            + " (exit: "@ + exit@ + ")"@,
{
    if success {
        Ok(())
    } else {
        Err(
            String::from_str("cargo ").concat(subcommand).concat(" failed for ").concat(
                triple,
            ).concat(" (exit: ").concat(exit).concat(")"),
        )
    }
}

/// The file that goes with an agent.
pub open spec fn agent_manifest_text(protocol_version: u32, triple: Seq<char>, built_at: u64) -> Seq<
    char,
> {
    "{\n  \"protocol_version\": "@ + decimal(protocol_version as nat)
        + ",\n  \"target_triple\": \""@ + triple + "\",\n  \"built_at_unix_secs\": "@ + decimal(
        built_at as nat,
    ) + "\n}\n"@
}

/// The file that goes with an agent.
pub fn agent_manifest(protocol_version: u32, triple: &str, built_at: u64) -> (r: String)
    ensures
        r@ == agent_manifest_text(protocol_version, triple@, built_at),
{
    String::from_str("{\n  \"protocol_version\": ").concat(
        decimal_string(protocol_version as u64).as_str(),
    ).concat(",\n  \"target_triple\": \"").concat(triple).concat(
        "\",\n  \"built_at_unix_secs\": ",
    ).concat(decimal_string(built_at).as_str()).concat("\n}\n")
}

/// The number that a text spells, at most `max`.
pub open spec fn number_in(s: Seq<char>, max: nat) -> Option<nat> {
    unsigned_value(encode_utf8(trimmed(s)), max)
}

/// Reads a number with white space around it.
pub fn read_number(s: &str, max: u32) -> (r: Option<u32>)
    ensures
        match r {
            Some(v) => number_in(s@, max as nat) == Some(v as nat),
            None => number_in(s@, max as nat) is None,
        },
{
    let word = trim(s);
    parse_unsigned(word.as_str().as_bytes(), max)
}

/// Reads the protocol version out of the file that holds it. `shown` is the
/// file's path written out.
pub fn parse_version(contents: &str, shown: &str) -> (r: Result<u32, String>)
    ensures
        match r {
            Ok(v) => number_in(contents@, u32::MAX as nat) == Some(v as nat),
            Err(text) => number_in(contents@, u32::MAX as nat) is None && text@ == shown@
                + " must contain a u32 decimal literal"@,
        },
{
    match read_number(contents, u32::MAX) {
        Some(v) => Ok(v),
        None => Err(shown.to_owned().concat(" must contain a u32 decimal literal")),
    }
}

/// A task has to run in the workspace's root, where the manifest is. `cwd` is
/// the directory it runs in, written out.
pub fn require_workspace_root(task: &str, has_manifest: bool, cwd: &str) -> (r: Result<(), String>)
    ensures
        r is Ok <==> has_manifest,
        r matches Err(text) ==> text@ == "`cargo xtask "@ + task@
            + "` must be invoked from the workspace root (no Cargo.toml at "@ + cwd@ + ")"@,
{
    if has_manifest {
        Ok(())
    } else {
        Err(
            String::from_str("`cargo xtask ").concat(task).concat(
                "` must be invoked from the workspace root (no Cargo.toml at ",
            ).concat(cwd).concat(")"),
        )
    }
}

} // verus!
