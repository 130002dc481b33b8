//! Errands: the doctor, the builds and the demos, call by call.

use vstd::prelude::*;
use vstd::utf8::encode_utf8;

use crate::config::path_in;
use crate::doctor::{doctor_task, find_host, forget_report, require_stdio, DoctorTask};
use crate::promises::diagnosis::hosts_are_found_by_their_alias;
use crate::proto::{Envelope, ErrorInfo, HostEntry, Payload, Request};
use crate::tasks::build_agents::{
    agent_args, build_outcome, number_in, parse_version, require_workspace_root,
};
use crate::tasks::build_release::{
    done_message, hex_text, release_args, require_darwin_binaries, sha256_of, sum_entry, SumEntry,
};
use crate::tasks::demo::{
    daemon_pid, docker_failure, host_port, needs_keypair, port_in, socket_timeout, tcp_timeout,
    waiting_step, Paths, Waiting,
};
use crate::tasks::demo_phase_6::{
    demo_root, handshake_report, handshake_request, preflight, teardown_message,
};
use crate::tasks::preflight::{
    check_zig_ring_compatibility, check_zig_version, ensure_on_path, find_lipo, is_on_path,
    probe_complaint, zig_works, HostOs, Probe,
};
use crate::text::{decimal, quoted, texts, trimmed, utf8_lossy};

verus! {

/// The doctor forgets a host if it is told to, and else lists the hosts if it
/// is told to.
pub proof fn the_doctor_does_what_it_is_told(alias: String, list: bool, r: DoctorTask)
    ensures
        call_ensures(doctor_task, (Some(alias), list), r) ==> r == DoctorTask::Forget(alias),
        call_ensures(doctor_task, (None::<String>, true), r) ==> r == DoctorTask::ListHosts,
        call_ensures(doctor_task, (None::<String>, false), r) ==> r == DoctorTask::Nothing,
{
}

/// A host that is not listed is named in the complaint, with the source of
/// the list; one that is listed is found at its place.
pub proof fn unlisted_hosts_are_named(
    hosts: Vec<HostEntry>,
    alias: String,
    source: &str,
    i: int,
    r: Result<usize, String>,
)
    requires
        call_ensures(find_host, (&hosts, &alias, source), r),
    ensures
        (forall|k: int| 0 <= k < hosts@.len() ==> (#[trigger] hosts@[k]).alias@ != alias@)
            ==> r is Err && (r->Err_0)@ == "alias '"@ + alias@
            + "' not found in host list (source: "@ + source@ + ")"@,
        0 <= i < hosts@.len() && hosts@[i].alias@ == alias@ && (forall|k: int|
            0 <= k < i ==> (#[trigger] hosts@[k]).alias@ != alias@) ==> r == Ok::<usize, String>(i as usize),
{
    hosts_are_found_by_their_alias(hosts@, alias@, i);
}

/// What was forgotten is counted.
pub proof fn what_was_forgotten_is_counted(
    removed: u64,
    host: &str,
    port: u16,
    store: &str,
    alias: &str,
    r: String,
)
    requires
        call_ensures(forget_report, (removed, host, port, store, alias), r),
    ensures
        removed == 0 ==> r@ == "no entries for "@ + host@ + ":"@ + decimal(port as nat) + " in "@
            + store@,
        removed > 0 ==> r@ == "removed "@ + decimal(removed as nat) + " entry(ies) for "@ + host@
            + ":"@ + decimal(port as nat) + " from "@ + store@ + " — next connection to '"@ + alias@
            + "' will re-TOFU the new key"@,
{
}

/// The agent speaks over stdin and stdout only.
pub proof fn the_agent_needs_stdio(r: Result<(), String>)
    ensures
        call_ensures(require_stdio, (true,), r) ==> r is Ok,
        call_ensures(require_stdio, (false,), r) ==> r is Err && (r->Err_0)@
            == "tepegoz agent: only --stdio is supported in Phase 6 Slice 6a. Re-invoke with --stdio, or run the standalone `tepegoz-agent` binary directly (same code path, same behavior)."@,
{
}

/// A build that fails is reported with its target and its exit; a task is run
/// from the root of the workspace.
pub proof fn failed_builds_are_reported(
    sub: &str,
    triple: &str,
    exit: &str,
    task: &str,
    cwd: &str,
    r: Result<(), String>,
)
    ensures
        call_ensures(build_outcome, (sub, triple, true, exit), r) ==> r is Ok,
        call_ensures(build_outcome, (sub, triple, false, exit), r) ==> r is Err && (r->Err_0)@
            == "cargo "@ + sub@ + " failed for "@ + triple@ + " (exit: "@ + exit@ + ")"@,
        call_ensures(require_workspace_root, (task, true, cwd), r) ==> r is Ok,
        call_ensures(require_workspace_root, (task, false, cwd), r) ==> r is Err && (r->Err_0)@
            == "`cargo xtask "@ + task@
            + "` must be invoked from the workspace root (no Cargo.toml at "@ + cwd@ + ")"@,
{
}

/// What cargo is called with for agents and for releases.
pub proof fn agents_and_releases_are_built_so(triple: &str, r: Vec<String>)
    ensures
        call_ensures(agent_args, (triple,), r) ==> texts(r@) == seq![
            "zigbuild"@,
            "--package"@,
            "tepegoz-agent"@,
            "--bin"@,
            "tepegoz-agent"@,
            "--profile"@,
            "release-agent"@,
            "--target"@,
            triple@,
        ],
        call_ensures(release_args, (HostOs::Linux, triple), r) ==> texts(r@) == seq![
            "zigbuild"@,
            "--package"@,
            "tepegoz"@,
            "--bin"@,
            "tepegoz"@,
            "--profile"@,
            "release"@,
            "--target"@,
            triple@,
        ],
{
}

/// The protocol's version is a number, or the file that should hold it is
/// named.
pub proof fn versions_are_numbers(contents: &str, shown: &str, r: Result<u32, String>)
    requires
        call_ensures(parse_version, (contents, shown), r),
    ensures
        number_in(contents@, 4_294_967_295) is Some ==> r is Ok && number_in(
            contents@,
            4_294_967_295,
        ) == Some(r->Ok_0 as nat),
        number_in(contents@, 4_294_967_295) is None ==> r is Err && (r->Err_0)@ == shown@
            + " must contain a u32 decimal literal"@,
{
}

/// A universal binary needs both halves; the first that is missing is named.
pub proof fn both_halves_are_needed(
    has_intel: bool,
    intel: &str,
    has_arm: bool,
    arm: &str,
    r: Result<(), String>,
)
    requires
        call_ensures(require_darwin_binaries, (has_intel, intel, has_arm, arm), r),
    ensures
        has_intel && has_arm ==> r is Ok,
        !has_intel ==> r is Err && (r->Err_0)@
            == "universal-apple-darwin requires both darwin binaries — missing "@ + intel@,
        has_intel && !has_arm ==> r is Err && (r->Err_0)@
            == "universal-apple-darwin requires both darwin binaries — missing "@ + arm@,
{
}

/// A sum is that of the binary's contents, in hexadecimal, with its path; and
/// in the end the artifacts are counted.
pub proof fn sums_are_of_the_contents(
    dir: &str,
    contents: &[u8],
    e: SumEntry,
    universal: bool,
    done: String,
)
    ensures
        call_ensures(sum_entry, (dir, contents), e) ==> e.digest@ == hex_text(sha256_of(contents@))
            && e.path@ == dir@ + "/tepegoz"@,
        call_ensures(done_message, (true,), done) ==> done@ == "[build-release] done: "@ + decimal(
            5,
        ) + " artifact(s) + SHA256SUMS"@,
        call_ensures(done_message, (false,), done) ==> done@ == "[build-release] done: "@ + decimal(
            4,
        ) + " artifact(s) + SHA256SUMS"@,
{
}

/// The demo's files are in a directory of its own.
pub proof fn the_demo_keeps_to_its_directory(
    temp: Vec<u8>,
    p: Paths,
    root: Vec<u8>,
)
    ensures
        call_ensures(Paths::resolve, (temp,), p) ==> {
            let base = path_in(temp@, encode_utf8("tepegoz-demo-phase-5"@));
            &&& p.root@ == base
            &&& p.config_dir@ == path_in(base, encode_utf8("tepegoz-config"@))
            &&& p.data_dir@ == path_in(base, encode_utf8("tepegoz-data"@))
            &&& p.key_private@ == path_in(base, encode_utf8("id_ed25519"@))
            &&& p.key_public@ == path_in(base, encode_utf8("id_ed25519.pub"@))
            &&& p.pid_file@ == path_in(base, encode_utf8("daemon.pid"@))
            &&& p.config_toml@ == path_in(
                path_in(base, encode_utf8("tepegoz-config"@)),
                encode_utf8("config.toml"@),
            )
        },
        call_ensures(demo_root, (temp,), root) ==> root@ == path_in(
            temp@,
            encode_utf8("tepegoz-demo-phase-6"@),
        ),
{
}

/// A new pair of keys is made unless both files are there.
pub proof fn keys_are_made_where_one_is_missing(private: bool, public: bool, r: bool)
    requires
        call_ensures(needs_keypair, (private, public), r),
    ensures
        r <==> !private || !public,
{
}

/// Docker's words are quoted; its answer about the port is read or quoted.
pub proof fn dockers_words_are_quoted(
    what: &str,
    printed: &[u8],
    failure: String,
    r: Result<u16, String>,
)
    ensures
        call_ensures(docker_failure, (what, printed), failure) ==> failure@ == "docker "@ + what@
            + " failed: "@ + trimmed(utf8_lossy(printed@)),
        call_ensures(host_port, (printed,), r) && port_in(utf8_lossy(printed@)) is Some
            ==> r is Ok && port_in(utf8_lossy(printed@)) == Some(r->Ok_0 as nat),
        call_ensures(host_port, (printed,), r) && port_in(utf8_lossy(printed@)) is None
            ==> r is Err && (r->Err_0)@ == "failed to parse host port from `docker port` output: "@
            + quoted(trimmed(utf8_lossy(printed@))),
{
}

/// Waiting: look while there is time, sleep when it is not there yet, give up
/// when time is over.
pub proof fn waiting_ends_at_the_deadline(
    now: u64,
    deadline: u64,
    port: u16,
    shown: &str,
    r: Waiting,
    text: String,
)
    ensures
        call_ensures(waiting_step, (now, deadline, None::<bool>), r) && now < deadline ==> r
            == Waiting::Look,
        call_ensures(waiting_step, (now, deadline, None::<bool>), r) && now >= deadline ==> r
            == Waiting::GiveUp,
        call_ensures(waiting_step, (now, deadline, Some(true)), r) ==> r == Waiting::Ready,
        call_ensures(waiting_step, (now, deadline, Some(false)), r) ==> r == Waiting::Sleep,
        call_ensures(tcp_timeout, (port,), text) ==> text@
            == "sshd container did not accept TCP on 127.0.0.1:"@ + decimal(port as nat)
            + " within 30s"@,
        call_ensures(socket_timeout, (shown,), text) ==> text@ == "daemon socket never appeared at "@
            + shown@ + " within 5s — another tepegoz daemon may already be running"@,
{
}

/// The daemon's process is known by the number in its file.
pub proof fn the_daemons_pid_is_the_number_in_its_file(contents: &str, r: Option<u32>)
    requires
        call_ensures(daemon_pid, (contents,), r),
    ensures
        r is Some <==> number_in(contents@, 4_294_967_295) is Some,
        r is Some ==> number_in(contents@, 4_294_967_295) == Some(r->0 as nat),
{
}

/// The handshake with an agent.
pub proof fn agents_are_greeted(
    e: Envelope,
    cargo: Probe,
    ready: Result<(), String>,
    payload: Payload,
    info: ErrorInfo,
    shown: &str,
    r: Result<Vec<String>, String>,
    path: &str,
    text: String,
)
    ensures
        call_ensures(handshake_request, (), e) ==> e@ == (Request::AgentHandshake {
            request_id: 1,
        }),
        call_ensures(preflight, (&cargo,), ready) && cargo is Started ==> ready is Ok,
        call_ensures(preflight, (&cargo,), ready) && !(cargo is Started) ==> ready is Err && (
        ready->Err_0)@ == probe_complaint(
            "cargo"@,
            "cargo is required — install Rust via https://rustup.rs and retry"@,
            cargo,
        ),
        call_ensures(handshake_report, (&payload, shown), r) ==> (r is Ok
            <==> payload is AgentHandshakeResponse),
        call_ensures(handshake_report, (&payload, shown), r) && payload == Payload::Error(info)
            ==> (r->Err_0)@ == "agent returned Error("@ + info.kind.spec_name() + "): "@
            + info.message@,
        call_ensures(teardown_message, (Some(path),), text) ==> text@ == "[demo-phase-6] removed "@
            + path@,
        call_ensures(teardown_message, (None::<&str>,), text) ==> text@
            == "[demo-phase-6] nothing to tear down (no fixture present)."@,
{
}

/// Programs that start are there; those that do not are complained of.
pub proof fn programs_that_start_are_there(
    binary: &str,
    hint: &str,
    probe: Probe,
    lipo: Probe,
    llvm: Probe,
    r: Result<(), String>,
    there: bool,
    tool: Option<&'static str>,
)
    ensures
        call_ensures(ensure_on_path, (binary, hint, &probe), r) && probe is Started ==> r is Ok,
        call_ensures(ensure_on_path, (binary, hint, &probe), r) && !(probe is Started) ==> r is Err
            && (r->Err_0)@ == probe_complaint(binary@, hint@, probe),
        call_ensures(is_on_path, (&probe,), there) ==> there == (probe is Started),
        call_ensures(find_lipo, (&lipo, &llvm), tool) && lipo is Started ==> tool is Some && tool->0@
            == "lipo"@,
        call_ensures(find_lipo, (&lipo, &llvm), tool) && !(lipo is Started) && llvm is Started
            ==> tool is Some && tool->0@ == "llvm-lipo"@,
        call_ensures(find_lipo, (&lipo, &llvm), tool) && !(lipo is Started) && !(llvm is Started)
            ==> tool is None,
{
}

/// A release is built with a zig that works, or with none that tells.
pub proof fn releases_need_a_zig_that_works(
    version: &str,
    printed: &[u8],
    r: Result<(), String>,
)
    ensures
        call_ensures(check_zig_version, (version,), r) ==> (r is Ok <==> zig_works(
            trimmed(version@),
        )),
        call_ensures(check_zig_ring_compatibility, (None::<&[u8]>,), r) ==> r is Ok,
        call_ensures(check_zig_ring_compatibility, (Some(printed),), r) ==> (r is Ok <==> zig_works(
            trimmed(utf8_lossy(printed@)),
        )),
{
}

} // verus!
