//! Builds and demos: what is asked for, checked and written.

use vstd::prelude::*;
use vstd::utf8::{encode_utf8, is_ascii_chars, is_ascii_chars_encode_utf8};

use crate::promises::pointer::spells;
use crate::promises::texts::{
    beginnings_and_ends, lines_end_with_line_feeds, numbers_are_read_back,
    the_end_stands_behind_the_last, the_first_word_ends_at_white_space,
    trimming_takes_the_white_space_around,
};
use crate::tasks::build_agents::{
    agent_manifest_text, agent_target_names, build_command, number_in, tools_verdict,
};
use crate::tasks::build_release::{
    build_subcommand, bundle_names, hex_text, manifest_text, sums_body, text_before, SumView,
};
use crate::tasks::demo::{
    config_text, demo_verdict, keygen_command, port_in, ready_text, run_command, DockerInfo,
};
use crate::tasks::demo_phase_6::handshake_text;
use crate::tasks::preflight::{
    kept, lists_target, probe_complaint, release_target_names, spec_is_darwin, target_installed,
    toolchain_verdict, zig_works, HostOs, Probe,
};
use crate::text::{decimal, digit, is_white, joined, text_lines, trimmed, utf8_lossy};

verus! {

/// What is built: agents for Linux first and then macOS, releases the other
/// way round, and with a universal binary one directory more.
pub proof fn the_targets_are_these()
    ensures
        agent_target_names() == seq![
            "x86_64-unknown-linux-musl"@,
            "aarch64-unknown-linux-musl"@,
            "x86_64-apple-darwin"@,
            "aarch64-apple-darwin"@,
        ],
        release_target_names() == seq![
            "x86_64-apple-darwin"@,
            "aarch64-apple-darwin"@,
            "x86_64-unknown-linux-musl"@,
            "aarch64-unknown-linux-musl"@,
        ],
        bundle_names(false) == seq![
            "x86_64-apple-darwin"@,
            "aarch64-apple-darwin"@,
            "x86_64-unknown-linux-musl"@,
            "aarch64-unknown-linux-musl"@,
        ],
        bundle_names(true) == seq![
            "x86_64-apple-darwin"@,
            "aarch64-apple-darwin"@,
            "x86_64-unknown-linux-musl"@,
            "aarch64-unknown-linux-musl"@,
            "universal-apple-darwin"@,
        ],
{
}

/// Cargo is called with the subcommand, the package as package and as binary,
/// the profile and the target.
pub proof fn cargo_is_told_what_to_build(
    subcommand: Seq<char>,
    package: Seq<char>,
    profile: Seq<char>,
    triple: Seq<char>,
)
    ensures
        build_command(subcommand, package, profile, triple) == seq![
            subcommand,
            "--package"@,
            package,
            "--bin"@,
            package,
            "--profile"@,
            profile,
            "--target"@,
            triple,
        ],
{
}

/// On macOS a target whose name ends in `-apple-darwin` is built with cargo's
/// own `build`; everything else goes through zig.
pub proof fn darwin_is_built_natively_on_macs(name: Seq<char>, host: HostOs, triple: Seq<char>)
    ensures
        build_subcommand(HostOs::MacOs, name + "-apple-darwin"@) == "build"@,
        spec_is_darwin(name + "-apple-darwin"@),
        host != HostOs::MacOs ==> build_subcommand(host, triple) == "zigbuild"@,
        !spec_is_darwin(triple) ==> build_subcommand(host, triple) == "zigbuild"@,
        spec_is_darwin(triple) ==> triple.len() >= "-apple-darwin"@.len() && triple == triple.take(
            triple.len() - "-apple-darwin"@.len(),
        ) + "-apple-darwin"@,
{
    beginnings_and_ends(name, "-apple-darwin"@, triple);
}

/// The manifests name the version, the target and the time of the build.
pub proof fn manifests_name_what_was_built(
    protocol: u32,
    version: Seq<char>,
    triple: Seq<char>,
    built_at: u64,
)
    ensures
        manifest_text(version, triple, built_at) == "{\n  \"version\": \""@ + version
            + "\",\n  \"target_triple\": \""@ + triple + "\",\n  \"built_at_unix_secs\": "@
            + decimal(built_at as nat) + "\n}\n"@,
        agent_manifest_text(protocol, triple, built_at) == "{\n  \"protocol_version\": "@ + decimal(
            protocol as nat,
        ) + ",\n  \"target_triple\": \""@ + triple + "\",\n  \"built_at_unix_secs\": "@ + decimal(
            built_at as nat,
        ) + "\n}\n"@,
{
}

/// A program that is missing is named, with what to do about it; of the tools
/// the first that is missing.
pub proof fn missing_tools_are_named(
    binary: Seq<char>,
    hint: Seq<char>,
    why: String,
    cargo: Probe,
    zig: Probe,
    zigbuild: Probe,
)
    ensures
        probe_complaint(binary, hint, Probe::NotFound) == "`"@ + binary + "` not found on PATH. "@
            + hint,
        probe_complaint(binary, hint, Probe::Failed(why)) == "failed to probe `"@ + binary + "`: "@
            + why@ + ". "@ + hint,
        cargo is Started && zig is Started && zigbuild is Started ==> tools_verdict(
            cargo,
            zig,
            zigbuild,
        ) is None,
        !(cargo is Started) ==> tools_verdict(cargo, zig, zigbuild) == Some(
            probe_complaint(
                "cargo"@,
                "cargo is required — install Rust via https://rustup.rs and retry"@,
                cargo,
            ),
        ),
        cargo is Started && !(zig is Started) ==> tools_verdict(cargo, zig, zigbuild) == Some(
            probe_complaint(
                "zig"@,
                "zig is required for cross-compilation — install via https://ziglang.org/download/ (or `brew install zig`)"@,
                zig,
            ),
        ),
        cargo is Started && zig is Started && !(zigbuild is Started) ==> tools_verdict(
            cargo,
            zig,
            zigbuild,
        ) == Some(
            probe_complaint(
                "cargo-zigbuild"@,
                "cargo-zigbuild is required — install via `cargo install cargo-zigbuild` (https://github.com/rust-cross/cargo-zigbuild)"@,
                zigbuild,
            ),
        ),
{
}

/// The demo needs docker, ssh-keygen and cargo, in that order, and docker's
/// daemon.
pub proof fn the_demo_names_what_it_needs(
    docker: Probe,
    keygen: Probe,
    cargo: Probe,
    why: String,
)
    ensures
        !(docker is Started) ==> demo_verdict(docker, keygen, cargo, DockerInfo::Running) == Some(
            probe_complaint(
                "docker"@,
                "Docker is required — install Docker Desktop or Colima and retry"@,
                docker,
            ),
        ),
        docker is Started && !(keygen is Started) ==> demo_verdict(
            docker,
            keygen,
            cargo,
            DockerInfo::Running,
        ) == Some(
            probe_complaint(
                "ssh-keygen"@,
                "ssh-keygen is required — it ships with OpenSSH (install `openssh-client` or similar)"@,
                keygen,
            ),
        ),
        docker is Started && keygen is Started && !(cargo is Started) ==> demo_verdict(
            docker,
            keygen,
            cargo,
            DockerInfo::Running,
        ) == Some(
            probe_complaint(
                "cargo"@,
                "cargo is required — install Rust via https://rustup.rs and retry"@,
                cargo,
            ),
        ),
        docker is Started && keygen is Started && cargo is Started ==> {
            &&& demo_verdict(docker, keygen, cargo, DockerInfo::Running) is None
            &&& demo_verdict(docker, keygen, cargo, DockerInfo::NotRunning) == Some(
                "docker CLI is installed but the daemon isn't running — start Docker Desktop / Colima / rancher-desktop and retry"@,
            )
            &&& demo_verdict(docker, keygen, cargo, DockerInfo::Failed(why)) == Some(
                "running `docker info`"@,
            )
        },
{
}

/// The commands of the demo, argument by argument.
pub proof fn the_demos_commands(key: Seq<char>, public_key: Seq<char>)
    ensures
        keygen_command(key) == seq![
            "-t"@,
            "ed25519"@,
            "-N"@,
            ""@,
            "-f"@,
            key,
            "-q"@,
            "-C"@,
            "tepegoz-demo-phase-5"@,
        ],
        run_command(public_key) == seq![
            "run"@,
            "-d"@,
            "--name"@,
            "tepegoz-demo-phase-5-sshd"@,
            "-e"@,
            "PUID=1000"@,
            "-e"@,
            "PGID=1000"@,
            "-e"@,
            "USER_NAME=tepegoz"@,
            "-e"@,
            "PUBLIC_KEY="@ + trimmed(public_key),
            "-p"@,
            "0:2222"@,
            "lscr.io/linuxserver/openssh-server:latest"@,
        ],
{
}

/// The demo's configuration and what is said when it is up name the port, the
/// key and the paths.
pub proof fn the_demo_says_where_it_is(
    port: u16,
    key: Seq<char>,
    config: Seq<char>,
    socket: Seq<char>,
    root: Seq<char>,
)
    ensures
        config_text(port, key)
            == "[[ssh.hosts]]\nalias = \"staging\"\nhostname = \"127.0.0.1\"\nport = "@ + decimal(
            port as nat,
        ) + "\nuser = \"tepegoz\"\nidentity_file = \""@ + key + "\"\n"@,
        ready_text(port, config, socket, root).len() == 9,
        ready_text(port, config, socket, root)[1] == "sshd container: "@
            + "tepegoz-demo-phase-5-sshd"@ + " on 127.0.0.1:"@ + decimal(port as nat),
        ready_text(port, config, socket, root)[2] == "tepegoz config: "@ + config,
        ready_text(port, config, socket, root)[3] == "daemon socket:  "@ + socket,
        ready_text(port, config, socket, root)[4] == "demo root:      "@ + root,
        ready_text(port, config, socket, root)[6]
            == "Ready. Run 'tepegoz tui' in a new terminal."@,
        ready_text(port, config, socket, root)[8]
            == "(Ctrl-C here when done — it'll tear the fixture down cleanly.)"@,
{
}

/// The answer of an agent is reported value by value.
pub proof fn the_agents_answer_is_reported(
    id: u64,
    version: u32,
    os: Seq<char>,
    arch: Seq<char>,
    capabilities: Seq<Seq<char>>,
)
    ensures
        ({
            let lines = handshake_text(id, version, os, arch, capabilities);
            &&& lines.len() == 8
            &&& lines[1] == "  agent handshake ✓"@
            &&& lines[2] == "    request_id:   "@ + decimal(id as nat)
            &&& lines[3] == "    version:      "@ + decimal(version as nat)
            &&& lines[4] == "    os:           "@ + os
            &&& lines[5] == "    arch:         "@ + arch
            &&& capabilities.len() == 0 ==> lines[6] == "    capabilities: "@
                + "(none — 6a ships an empty list; 6c/d populate)"@
            &&& capabilities.len() > 0 ==> lines[6] == "    capabilities: "@ + joined(
                capabilities,
                ", "@,
            )
        }),
{
}

/// Bytes in hexadecimal: two digits for each, the higher one first, `0` to `9`
/// and `a` to `f`.
pub proof fn bytes_are_written_in_hexadecimal(bytes: Seq<u8>, i: int)
    requires
        0 <= i < bytes.len(),
    ensures
        ({
            let t = hex_text(bytes);
            let high = bytes[i] as int / 16;
            let low = bytes[i] as int % 16;
            &&& t.len() == 2 * bytes.len()
            &&& high < 10 ==> t[2 * i] as int == 48 + high
            &&& high >= 10 ==> t[2 * i] as int == 87 + high
            &&& low < 10 ==> t[2 * i + 1] as int == 48 + low
            &&& low >= 10 ==> t[2 * i + 1] as int == 87 + low
        }),
{
    assert((2 * i) / 2 == i && (2 * i) % 2 == 0);
    assert((2 * i + 1) / 2 == i && (2 * i + 1) % 2 == 1);
}

/// The index of sums has a line for each file: its digest, two spaces, its
/// path.
pub proof fn sums_are_written_line_by_line(entries: Seq<SumView>, e: SumView)
    ensures
        sums_body(Seq::empty()).len() == 0,
        sums_body(entries.push(e)) == sums_body(entries) + e.digest + "  "@ + e.path + "\n"@,
{
    assert(entries.push(e).drop_last() =~= entries);
}

/// The order of the paths is that of the dictionary: the first character in
/// which two differ decides, and a beginning comes before the whole.
pub proof fn paths_are_in_dictionary_order(
    common: Seq<char>,
    a: char,
    b: char,
    x: Seq<char>,
    y: Seq<char>,
)
    ensures
        a < b ==> text_before(common + seq![a] + x, common + seq![b] + y) && !text_before(
            common + seq![b] + y,
            common + seq![a] + x,
        ),
        text_before(common, common + seq![a] + x),
        !text_before(common, common),
    decreases common.len(),
{
    let p = common + seq![a] + x;
    let q = common + seq![b] + y;
    if common.len() == 0 {
        assert(p[0] == a);
        assert(q[0] == b);
    } else {
        let rest = common.drop_first();
        paths_are_in_dictionary_order(rest, a, b, x, y);
        assert(p.drop_first() =~= rest + seq![a] + x);
        assert(q.drop_first() =~= rest + seq![b] + y);
        assert(p[0] == common[0] && q[0] == common[0]);
    }
}

/// A target is in a list if it stands on a line of its own, white space
/// aside.
pub proof fn a_target_stands_on_its_line(list: Seq<char>, target: Seq<char>, i: int)
    ensures
        0 <= i < text_lines(list).len() && trimmed(text_lines(list)[i]) == target
            ==> lists_target(list, target),
        (forall|k: int|
            0 <= k < text_lines(list).len() ==> trimmed(#[trigger] text_lines(list)[k]) != target)
            ==> !lists_target(list, target),
{
}

/// Without an answer of `rustup` nothing counts as installed; with one, what
/// it lists.
pub proof fn installed_is_what_rustup_lists(bytes: Seq<u8>, target: Seq<char>)
    ensures
        !target_installed(None, target),
        target_installed(Some(bytes), target) == lists_target(utf8_lossy(bytes), target),
{
}

/// Picking out of a list keeps what is wanted, in its order.
pub proof fn picking_keeps_the_order(
    all: Seq<Seq<char>>,
    t: Seq<char>,
    keep: spec_fn(Seq<char>) -> bool,
)
    ensures
        kept(Seq::empty(), keep).len() == 0,
        keep(t) ==> kept(all.push(t), keep) == kept(all, keep).push(t),
        !keep(t) ==> kept(all.push(t), keep) == kept(all, keep),
{
    assert(all.push(t).drop_last() =~= all);
}

/// On Linux a target for macOS is refused by name, before anything else.
pub proof fn darwin_is_refused_on_linux(
    target: Seq<char>,
    rustup: Option<Seq<u8>>,
    zigbuild: Probe,
)
    requires
        spec_is_darwin(target),
    ensures
        toolchain_verdict(seq![target], HostOs::Linux, rustup, zigbuild) == Some(
            "R1 preflight: cross-compiling to darwin from a Linux host is not supported (needs a macOS SDK shim we don't ship). Use a macOS host for darwin targets.\nForbidden on this host: "@
                + target,
        ),
{
    let keep = |t: Seq<char>| spec_is_darwin(t);
    let none = Seq::<Seq<char>>::empty();
    assert(none.push(target) =~= seq![target]);
    picking_keeps_the_order(none, target, keep);
    assert(kept(none, keep) =~= none);
    assert(kept(seq![target], keep) =~= seq![target]);
}

/// What is missing is listed with the commands that install it.
pub proof fn what_is_missing_is_listed(target: Seq<char>, host: HostOs, zigbuild: Probe)
    requires
        host != HostOs::Linux || !spec_is_darwin(target),
    ensures
        zigbuild is Started ==> toolchain_verdict(seq![target], host, None, zigbuild) == Some(
            "cross-compile preflight failed. Missing on this host:"@ + (
            "\n  - rustup targets (std-lib): "@ + target + Seq::<char>::empty())
                + "\n\nInstall:\n  "@ + ("rustup target add "@ + target) + "\n\nThen re-run."@,
        ),
        !(zigbuild is Started) && host == HostOs::MacOs ==> toolchain_verdict(
            seq![target],
            host,
            None,
            zigbuild,
        ) == Some(
            "cross-compile preflight failed. Missing on this host:"@ + (
            "\n  - rustup targets (std-lib): "@ + target
                + "\n  - cargo-zigbuild (linker; covers both musl and darwin via zig's cross-toolchain)"@)
                + "\n\nInstall:\n  "@ + ("rustup target add "@ + target + "\n  && "@
                + "cargo install --locked cargo-zigbuild"@ + "\n  && "@ + "brew install zig"@)
                + "\n\nThen re-run."@,
        ),
        !(zigbuild is Started) && host != HostOs::MacOs ==> toolchain_verdict(
            seq![target],
            host,
            None,
            zigbuild,
        ) == Some(
            "cross-compile preflight failed. Missing on this host:"@ + (
            "\n  - rustup targets (std-lib): "@ + target
                + "\n  - cargo-zigbuild (linker; covers both musl and darwin via zig's cross-toolchain)"@)
                + "\n\nInstall:\n  "@ + ("rustup target add "@ + target + "\n  && "@
                + "cargo install --locked cargo-zigbuild"@ + "\n  && "@
                + "# then install zig via your package manager (apt/dnf/pacman)"@)
                + "\n\nThen re-run."@,
        ),
{
    let none = Seq::<Seq<char>>::empty();
    assert(none.push(target) =~= seq![target]);
    let dark = |t: Seq<char>| spec_is_darwin(t);
    let gone = |t: Seq<char>| !target_installed(None, t);
    picking_keeps_the_order(none, target, dark);
    picking_keeps_the_order(none, target, gone);
    assert(kept(none, dark) =~= none);
    assert(kept(none, gone) =~= none);
    assert(kept(seq![target], gone) =~= seq![target]);
    reveal_with_fuel(joined, 4);
    let add = "rustup target add "@ + target;
    let bin = "cargo install --locked cargo-zigbuild"@;
    let zig = if host == HostOs::MacOs {
        "brew install zig"@
    } else {
        "# then install zig via your package manager (apt/dnf/pacman)"@
    };
    let lines = seq![add].push(bin).push(zig);
    assert(lines.drop_last() =~= seq![add, bin]);
    assert(lines.drop_last().drop_last() =~= seq![add]);
}

/// Zig 0.14 and 0.15 work, in any patch of them; no other does.
pub proof fn two_lines_of_zig_work(patch: Seq<char>, version: Seq<char>)
    ensures
        zig_works("0.14."@ + patch),
        zig_works("0.15."@ + patch),
        zig_works(version) ==> version.len() >= 5 && (version.take(5) == "0.14."@ || version.take(5)
            == "0.15."@),
{
    reveal_strlit("0.14.");
    reveal_strlit("0.15.");
    assert(("0.14."@ + patch).take(5) =~= "0.14."@);
    assert(("0.15."@ + patch).take(5) =~= "0.15."@);
}

/// The digits of a number, in UTF-8.
proof fn lemma_digits_are_ascii(n: nat)
    ensures
        is_ascii_chars(decimal(n)),
        decimal(n).len() > 0,
        forall|i: int| 0 <= i < decimal(n).len() ==> '0' <= (#[trigger] decimal(n)[i]) <= '9',
    decreases n,
{
    if n >= 10 {
        lemma_digits_are_ascii(n / 10);
        assert(decimal(n) == decimal(n / 10).push(digit(n % 10)));
        assert forall|i: int| 0 <= i < decimal(n).len() implies '0' <= (#[trigger] decimal(n)[i])
            <= '9' by {
            if i < decimal(n / 10).len() {
                assert(decimal(n)[i] == decimal(n / 10)[i]);
            }
        }
    }
}

proof fn lemma_digits_spell(n: nat)
    ensures
        spells(encode_utf8(decimal(n)), n),
{
    lemma_digits_are_ascii(n);
    is_ascii_chars_encode_utf8(decimal(n));
    let bytes = encode_utf8(decimal(n));
    assert forall|i: int| 0 <= i < bytes.len() implies (#[trigger] bytes[i]) as int == decimal(
        n,
    )[i] as int by {
        assert(decimal(n)[i] as u8 == bytes[i]);
        assert('0' <= decimal(n)[i] <= '9');
    }
}

/// A number with white space around it is read as that number if it is not
/// too large.
pub proof fn numbers_in_files_are_read(
    front: Seq<char>,
    n: nat,
    back: Seq<char>,
    max: nat,
)
    requires
        forall|i: int| 0 <= i < front.len() ==> is_white(#[trigger] front[i]),
        forall|i: int| 0 <= i < back.len() ==> is_white(#[trigger] back[i]),
    ensures
        n <= max ==> number_in(front + decimal(n) + back, max) == Some(n),
        n > max ==> number_in(front + decimal(n) + back, max) is None,
{
    lemma_digits_are_ascii(n);
    let t = decimal(n);
    assert('0' <= t[0] <= '9' && '0' <= t[t.len() - 1] <= '9');
    trimming_takes_the_white_space_around(front, t, back);
    lemma_digits_spell(n);
    numbers_are_read_back(encode_utf8(t), n, max);
}

/// The port of a container is the number behind the last colon of the first
/// line that docker prints, whatever the other lines say.
pub proof fn the_port_is_in_the_first_line(address: Seq<char>, port: u16, rest: Seq<char>)
    requires
        address.len() > 0,
        !is_white(address[0]),
        !address.contains('\n'),
        rest.len() > 0 ==> !is_white(rest.last()),
    ensures
        port_in(address + seq![':'] + decimal(port as nat)) == Some(port as nat),
        port_in(address + seq![':'] + decimal(port as nat) + seq!['\n']) == Some(port as nat),
        port_in(address + seq![':'] + decimal(port as nat) + seq!['\n'] + rest) == Some(
            port as nat,
        ),
{
    let n = port as nat;
    let digits = decimal(n);
    let line = address + seq![':'] + digits;
    lemma_digits_are_ascii(n);
    assert(line[0] == address[0]);
    assert(line.last() == digits[digits.len() - 1]);
    assert forall|i: int| 0 <= i < line.len() implies line[i] != '\n' by {
        if i < address.len() {
            assert(address.contains(address[i]));
        } else if i > address.len() {
            assert(line[i] == digits[i - address.len() - 1]);
        }
    }
    assert forall|i: int| 0 <= i < digits.len() implies digits[i] != ':' by {}
    the_end_stands_behind_the_last(address, digits, ':');
    assert forall|i: int| 0 <= i < digits.len() implies !is_white(#[trigger] digits[i]) by {}
    the_first_word_ends_at_white_space(Seq::empty(), digits, Seq::empty());
    assert(Seq::<char>::empty() + digits + Seq::<char>::empty() =~= digits);
    lemma_digits_spell(n);
    numbers_are_read_back(encode_utf8(digits), n, u16::MAX as nat);
    let none = Seq::<char>::empty();
    // Alone, with a line end, and with more lines.
    trimming_takes_the_white_space_around(none, line, none);
    assert(none + line + none =~= line);
    lines_end_with_line_feeds(line, none);
    trimming_takes_the_white_space_around(none, line, seq!['\n']);
    assert(none + line + seq!['\n'] =~= line + seq!['\n']);
    if rest.len() > 0 {
        let whole = line + seq!['\n'] + rest;
        assert(whole[0] == line[0]);
        assert(whole.last() == rest[rest.len() - 1]);
        trimming_takes_the_white_space_around(none, whole, none);
        assert(none + whole + none =~= whole);
        lines_end_with_line_feeds(line, rest);
        assert(text_lines(whole)[0] == line);
    } else {
        assert(line + seq!['\n'] + rest =~= line + seq!['\n']);
    }
}

} // verus!
