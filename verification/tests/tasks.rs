use tepegoz_tui::proto::{ErrorInfo, ErrorKind, Payload};
use tepegoz_tui::tasks::build_agents::{
    agent_args, agent_manifest, agent_targets, build_outcome, parse_version, require_workspace_root,
};
use tepegoz_tui::tasks::build_release::{
    bundle_dirs, done_message, manifest, release_args, require_darwin_binaries, sha256sums,
    subcommand_for, sum_entry, SumEntry,
};
use tepegoz_tui::tasks::demo::{
    config_toml, daemon_pid, docker_failure, host_port, keygen_args, needs_keypair, ready_lines,
    run_args, socket_timeout, tcp_timeout, waiting_step, DockerInfo, Paths, Waiting,
};
use tepegoz_tui::tasks::demo_phase_6::{
    demo_root, handshake_report, handshake_request, teardown_message,
};
use tepegoz_tui::tasks::preflight::{
    check_cross_build_toolchain, check_zig_ring_compatibility, check_zig_version, ensure_on_path,
    find_lipo, list_has_target, release_targets, rustup_has_target, HostOs, Probe,
};

#[test]
fn a_missing_program_is_named() {
    assert_eq!(ensure_on_path("zig", "hint", &Probe::Started), Ok(()));
    assert_eq!(
        ensure_on_path("zig", "hint", &Probe::NotFound).unwrap_err(),
        "`zig` not found on PATH. hint"
    );
    assert_eq!(
        ensure_on_path("zig", "hint", &Probe::Failed("denied".into())).unwrap_err(),
        "failed to probe `zig`: denied. hint"
    );
}

#[test]
fn installed_targets_stand_on_their_own_lines() {
    let list = "x86_64-apple-darwin\n  aarch64-unknown-linux-musl \r\n";
    assert!(list_has_target(list, &"x86_64-apple-darwin".to_string()));
    assert!(list_has_target(list, &"aarch64-unknown-linux-musl".to_string()));
    assert!(!list_has_target(list, &"aarch64".to_string()));
    assert!(rustup_has_target(Some(list.as_bytes()), &"x86_64-apple-darwin".to_string()));
    assert!(!rustup_has_target(None, &"x86_64-apple-darwin".to_string()));
}

#[test]
fn a_complete_toolchain_passes() {
    let all = release_targets().join("\n");
    assert_eq!(
        check_cross_build_toolchain(
            &release_targets(),
            HostOs::MacOs,
            Some(all.as_bytes()),
            &Probe::Started
        ),
        Ok(())
    );
}

#[test]
fn linux_refuses_targets_for_macos() {
    let all = release_targets().join("\n");
    assert_eq!(
        check_cross_build_toolchain(
            &release_targets(),
            HostOs::Linux,
            Some(all.as_bytes()),
            &Probe::Started
        )
        .unwrap_err(),
        "R1 preflight: cross-compiling to darwin from a Linux host is not supported (needs a \
         macOS SDK shim we don't ship). Use a macOS host for darwin targets.\n\
         Forbidden on this host: x86_64-apple-darwin, aarch64-apple-darwin"
    );
}

#[test]
fn one_message_names_every_missing_layer() {
    let targets = vec![
        "x86_64-unknown-linux-musl".to_string(),
        "aarch64-unknown-linux-musl".to_string(),
    ];
    assert_eq!(
        check_cross_build_toolchain(&targets, HostOs::MacOs, None, &Probe::NotFound).unwrap_err(),
        "cross-compile preflight failed. Missing on this host:\
         \n  - rustup targets (std-lib): x86_64-unknown-linux-musl, aarch64-unknown-linux-musl\
         \n  - cargo-zigbuild (linker; covers both musl and darwin via zig's cross-toolchain)\
         \n\nInstall:\n  rustup target add x86_64-unknown-linux-musl aarch64-unknown-linux-musl\
         \n  && cargo install --locked cargo-zigbuild\n  && brew install zig\n\nThen re-run."
    );
    let listed = b"x86_64-unknown-linux-musl\naarch64-unknown-linux-musl\n";
    assert_eq!(
        check_cross_build_toolchain(&targets, HostOs::Linux, Some(listed), &Probe::NotFound)
            .unwrap_err(),
        "cross-compile preflight failed. Missing on this host:\
         \n  - cargo-zigbuild (linker; covers both musl and darwin via zig's cross-toolchain)\
         \n\nInstall:\n  cargo install --locked cargo-zigbuild\
         \n  && # then install zig via your package manager (apt/dnf/pacman)\n\nThen re-run."
    );
}

#[test]
fn zig_has_to_be_of_a_version_that_works() {
    assert_eq!(check_zig_version("0.15.2\n"), Ok(()));
    assert_eq!(check_zig_version(" 0.14.0 "), Ok(()));
    assert!(check_zig_version("0.16.0\n")
        .unwrap_err()
        .starts_with("zig 0.16.0 is incompatible with ring 0.17.14's cross-build"));
    assert!(check_zig_version("0.15").is_err());
    assert_eq!(check_zig_ring_compatibility(None), Ok(()));
    assert_eq!(check_zig_ring_compatibility(Some(b"0.15.1\n")), Ok(()));
    assert!(check_zig_ring_compatibility(Some(b"1.0\n")).is_err());
}

#[test]
fn lipo_is_apples_or_llvms() {
    assert_eq!(find_lipo(&Probe::Started, &Probe::Started), Some("lipo"));
    assert_eq!(find_lipo(&Probe::NotFound, &Probe::Started), Some("llvm-lipo"));
    assert_eq!(find_lipo(&Probe::NotFound, &Probe::Failed("x".into())), None);
}

#[test]
fn agents_need_three_tools() {
    let ok = Probe::Started;
    let no = Probe::NotFound;
    assert_eq!(tepegoz_tui::tasks::build_agents::preflight(&ok, &ok, &ok), Ok(()));
    let err = |a: &Probe, b: &Probe, c: &Probe| {
        tepegoz_tui::tasks::build_agents::preflight(a, b, c).unwrap_err()
    };
    assert!(err(&no, &no, &no).starts_with("`cargo` not found on PATH. cargo is required"));
    assert!(err(&ok, &no, &no).starts_with("`zig` not found on PATH. zig is required"));
    assert!(err(&ok, &ok, &no).starts_with("`cargo-zigbuild` not found on PATH."));
}

#[test]
fn agents_are_built_with_zig() {
    assert_eq!(agent_targets().len(), 4);
    assert_eq!(agent_targets()[0], "x86_64-unknown-linux-musl");
    assert_eq!(
        agent_args("t"),
        vec![
            "zigbuild", "--package", "tepegoz-agent", "--bin", "tepegoz-agent", "--profile",
            "release-agent", "--target", "t"
        ]
    );
    assert_eq!(build_outcome("zigbuild", "t", true, ""), Ok(()));
    assert_eq!(
        build_outcome("zigbuild", "t", false, "exit status: 101").unwrap_err(),
        "cargo zigbuild failed for t (exit: exit status: 101)"
    );
    assert_eq!(
        agent_manifest(9, "t", 1700),
        "{\n  \"protocol_version\": 9,\n  \"target_triple\": \"t\",\n  \"built_at_unix_secs\": 1700\n}\n"
    );
}

#[test]
fn the_protocol_version_is_a_number() {
    assert_eq!(parse_version(" 12\n", "p"), Ok(12));
    assert_eq!(
        parse_version("twelve", "p").unwrap_err(),
        "p must contain a u32 decimal literal"
    );
    assert!(parse_version("4294967296", "p").is_err());
    assert_eq!(require_workspace_root("build-agents", true, "/x"), Ok(()));
    assert_eq!(
        require_workspace_root("build-release", false, "/x").unwrap_err(),
        "`cargo xtask build-release` must be invoked from the workspace root (no Cargo.toml at /x)"
    );
}

#[test]
fn only_macos_builds_macos_targets_natively() {
    assert_eq!(subcommand_for(HostOs::MacOs, "aarch64-apple-darwin"), "build");
    assert_eq!(subcommand_for(HostOs::MacOs, "x86_64-unknown-linux-musl"), "zigbuild");
    assert_eq!(subcommand_for(HostOs::Linux, "aarch64-apple-darwin"), "zigbuild");
    assert_eq!(
        release_args(HostOs::Linux, "t"),
        vec![
            "zigbuild", "--package", "tepegoz", "--bin", "tepegoz", "--profile", "release",
            "--target", "t"
        ]
    );
    assert_eq!(
        manifest("1.0.0", "t", 5),
        "{\n  \"version\": \"1.0.0\",\n  \"target_triple\": \"t\",\n  \"built_at_unix_secs\": 5\n}\n"
    );
    assert_eq!(require_darwin_binaries(true, "i", true, "a"), Ok(()));
    assert!(require_darwin_binaries(false, "i", false, "a").unwrap_err().ends_with("missing i"));
    assert!(require_darwin_binaries(true, "i", false, "a").unwrap_err().ends_with("missing a"));
    assert_eq!(bundle_dirs(true).len(), 5);
    assert_eq!(done_message(true), "[build-release] done: 5 artifact(s) + SHA256SUMS");
    assert_eq!(done_message(false), "[build-release] done: 4 artifact(s) + SHA256SUMS");
}

#[test]
fn digests_are_sha256_in_hexadecimal() {
    let e = sum_entry("x86_64-apple-darwin", b"abc");
    assert_eq!(
        e.digest,
        "ba7816bf8f01cfea414140de5dae2223b00361a396177a9cb410ff61f20015ad"
    );
    assert_eq!(e.path, "x86_64-apple-darwin/tepegoz");
}

#[test]
fn the_index_is_sorted_and_complete() {
    let entries: Vec<SumEntry> = bundle_dirs(true).iter().map(|d| sum_entry(d, d.as_bytes())).collect();
    let text = sha256sums(entries);
    let paths: Vec<&str> = text.lines().map(|l| l.split("  ").nth(1).unwrap()).collect();
    assert_eq!(
        paths,
        vec![
            "aarch64-apple-darwin/tepegoz",
            "aarch64-unknown-linux-musl/tepegoz",
            "universal-apple-darwin/tepegoz",
            "x86_64-apple-darwin/tepegoz",
            "x86_64-unknown-linux-musl/tepegoz",
        ]
    );
    assert!(text.ends_with('\n'));
    let entry = |d: &str, p: &str| SumEntry { digest: d.into(), path: p.into() };
    assert_eq!(
        sha256sums(vec![entry("1", "b"), entry("2", "a"), entry("3", "b"), entry("4", "")]),
        "4  \n2  a\n1  b\n3  b\n"
    );
    assert_eq!(sha256sums(Vec::new()), "");
}

#[test]
fn the_demo_needs_docker_keys_and_cargo() {
    let ok = Probe::Started;
    let no = Probe::NotFound;
    let check = |a: &Probe, b: &Probe, c: &Probe, i: DockerInfo| {
        tepegoz_tui::tasks::demo::preflight(a, b, c, &i)
    };
    assert_eq!(check(&ok, &ok, &ok, DockerInfo::Running), Ok(()));
    assert!(check(&no, &no, &no, DockerInfo::Running).unwrap_err().starts_with("`docker`"));
    assert!(check(&ok, &no, &no, DockerInfo::Running).unwrap_err().starts_with("`ssh-keygen`"));
    assert!(check(&ok, &ok, &no, DockerInfo::Running).unwrap_err().starts_with("`cargo`"));
    assert!(check(&ok, &ok, &ok, DockerInfo::NotRunning)
        .unwrap_err()
        .starts_with("docker CLI is installed but the daemon isn't running"));
    assert_eq!(
        check(&ok, &ok, &ok, DockerInfo::Failed("x".into())).unwrap_err(),
        "running `docker info`"
    );
}

#[test]
fn docker_ports_are_read_from_the_first_line() {
    assert_eq!(host_port(b"0.0.0.0:49153\n[::]:49153\n"), Ok(49153));
    assert_eq!(host_port(b"[::]:32768 \n"), Ok(32768));
    assert_eq!(
        host_port(b"no \"port\"\n").unwrap_err(),
        "failed to parse host port from `docker port` output: \"no \\\"port\\\"\""
    );
    assert!(host_port(b"").is_err());
    assert!(host_port(b"0.0.0.0:70000").is_err());
    assert_eq!(docker_failure("run", b" no such image\n"), "docker run failed: no such image");
}

#[test]
fn the_demo_writes_its_files() {
    let paths = Paths::resolve(b"/tmp".to_vec());
    assert_eq!(paths.root, b"/tmp/tepegoz-demo-phase-5");
    assert_eq!(paths.config_toml, b"/tmp/tepegoz-demo-phase-5/tepegoz-config/config.toml");
    assert_eq!(paths.data_dir, b"/tmp/tepegoz-demo-phase-5/tepegoz-data");
    assert_eq!(paths.key_private, b"/tmp/tepegoz-demo-phase-5/id_ed25519");
    assert_eq!(paths.key_public, b"/tmp/tepegoz-demo-phase-5/id_ed25519.pub");
    assert_eq!(paths.pid_file, b"/tmp/tepegoz-demo-phase-5/daemon.pid");
    assert_eq!(
        config_toml(2222, "/k"),
        "[[ssh.hosts]]\nalias = \"staging\"\nhostname = \"127.0.0.1\"\nport = 2222\nuser = \"tepegoz\"\nidentity_file = \"/k\"\n"
    );
    assert!(needs_keypair(true, false) && needs_keypair(false, true) && !needs_keypair(true, true));
    assert_eq!(keygen_args("/k")[5], "/k");
    assert!(run_args("ssh-ed25519 AAAA\n").contains(&"PUBLIC_KEY=ssh-ed25519 AAAA".to_string()));
    assert_eq!(daemon_pid("123\n"), Some(123));
    assert_eq!(daemon_pid("x"), None);
    assert_eq!(
        ready_lines(5, "/c", "/s", "/r")[1],
        "sshd container: tepegoz-demo-phase-5-sshd on 127.0.0.1:5"
    );
}

#[test]
fn waiting_ends_when_it_is_there_or_time_is_up() {
    assert_eq!(waiting_step(0, 10, None), Waiting::Look);
    assert_eq!(waiting_step(0, 10, Some(false)), Waiting::Sleep);
    assert_eq!(waiting_step(20, 10, Some(true)), Waiting::Ready);
    assert_eq!(waiting_step(10, 10, None), Waiting::GiveUp);
    assert_eq!(
        tcp_timeout(7),
        "sshd container did not accept TCP on 127.0.0.1:7 within 30s"
    );
    assert!(socket_timeout("/s").starts_with("daemon socket never appeared at /s within 5s"));
}

#[test]
fn the_agent_demo_reports_the_handshake() {
    assert!(matches!(
        handshake_request().payload,
        Payload::AgentHandshake { request_id: 1 }
    ));
    let answer = |capabilities: Vec<String>| Payload::AgentHandshakeResponse {
        request_id: 1,
        version: 9,
        os: "linux".into(),
        arch: "x86_64".into(),
        capabilities,
    };
    let lines = handshake_report(&answer(vec!["docker".into(), "ports".into()]), "").unwrap();
    assert_eq!(
        lines,
        vec![
            "",
            "  agent handshake ✓",
            "    request_id:   1",
            "    version:      9",
            "    os:           linux",
            "    arch:         x86_64",
            "    capabilities: docker, ports",
            "",
        ]
    );
    let lines = handshake_report(&answer(Vec::new()), "").unwrap();
    assert_eq!(lines[6], "    capabilities: (none — 6a ships an empty list; 6c/d populate)");
    let error = Payload::Error(ErrorInfo { kind: ErrorKind::Internal, message: "m".into() });
    assert_eq!(handshake_report(&error, "").unwrap_err(), "agent returned Error(Internal): m");
    assert_eq!(
        handshake_report(&Payload::Pong, "Pong").unwrap_err(),
        "expected AgentHandshakeResponse, got Pong"
    );
    assert_eq!(demo_root(b"/tmp/".to_vec()), b"/tmp/tepegoz-demo-phase-6");
    assert_eq!(teardown_message(Some("/r")), "[demo-phase-6] removed /r");
    assert!(tepegoz_tui::tasks::demo_phase_6::preflight(&Probe::NotFound).is_err());
}
