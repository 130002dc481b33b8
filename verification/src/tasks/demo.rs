//! The SSH demo: a throwaway server in a container, and a daemon that knows
//! it.

use vstd::prelude::*;
use vstd::utf8::encode_utf8;

use crate::config::{join_path, path_in};
use crate::tasks::build_agents::{cargo_hint, number_in, read_number};
use crate::tasks::preflight::{ensure_on_path, probe_complaint, Probe};
use crate::text::{
    after_last, decimal, decimal_string, first_word, from_utf8_lossy, leading_word, lines_of,
    parse_unsigned, quote, quoted, tail_after, text_lines, texts, trim, trimmed, unsigned_value,
    utf8_lossy,
};

verus! {

/// Milliseconds that the SSH server gets to accept connections.
pub const TCP_READY_BUDGET_MS: u64 = 30_000;

/// Milliseconds that the daemon gets to open its socket.
pub const SOCKET_READY_BUDGET_MS: u64 = 5_000;

/// Milliseconds that the SSH server gets after it accepts connections.
pub const SSHD_BANNER_GRACE_MS: u64 = 500;

/// The container's name. It is fixed, so that a later run finds what an
/// earlier one left behind.
pub open spec fn container_name() -> Seq<char> {
    "tepegoz-demo-phase-5-sshd"@
}

/// Where the demo keeps its files, as bytes.
#[derive(Debug)]
pub struct Paths {
    pub root: Vec<u8>,
    pub config_dir: Vec<u8>,
    pub data_dir: Vec<u8>,
    pub key_private: Vec<u8>,
    pub key_public: Vec<u8>,
    pub pid_file: Vec<u8>,
    pub config_toml: Vec<u8>,
}

/// `name` below `base`.
pub open spec fn below(base: Seq<u8>, name: Seq<char>) -> Seq<u8> {
    path_in(base, encode_utf8(name))
}

fn copy_path(path: &Vec<u8>) -> (r: Vec<u8>)
    ensures
        r@ == path@,
{
    let mut r: Vec<u8> = Vec::new();
    r.extend_from_slice(path.as_slice());
    assert(r@ =~= path@);
    r
}

impl Paths {
    /// The demo's files in the directory `temp`.
    pub fn resolve(temp: Vec<u8>) -> (r: Paths)
        ensures
            r.root@ == below(temp@, "tepegoz-demo-phase-5"@),
            r.config_dir@ == below(r.root@, "tepegoz-config"@),
            r.data_dir@ == below(r.root@, "tepegoz-data"@),
            r.key_private@ == below(r.root@, "id_ed25519"@),
            r.key_public@ == below(r.root@, "id_ed25519.pub"@),
            r.pid_file@ == below(r.root@, "daemon.pid"@),
            r.config_toml@ == below(r.config_dir@, "config.toml"@),
    {
        let root = join_path(temp, "tepegoz-demo-phase-5");
        let config_dir = join_path(copy_path(&root), "tepegoz-config");
        Paths {
            data_dir: join_path(copy_path(&root), "tepegoz-data"),
            key_private: join_path(copy_path(&root), "id_ed25519"),
            key_public: join_path(copy_path(&root), "id_ed25519.pub"),
            pid_file: join_path(copy_path(&root), "daemon.pid"),
            config_toml: join_path(copy_path(&config_dir), "config.toml"),
            config_dir,
            root,
        }
    }
}

/// How asking docker for its state went.
#[derive(Debug, Clone)]
pub enum DockerInfo {
    /// It answered.
    Running,
    /// Its daemon did not.
    NotRunning,
    /// It could not be asked.
    Failed(String),
}

/// What is wrong before the demo starts, if anything.
pub open spec fn demo_verdict(
    docker: Probe,
    ssh_keygen: Probe,
    cargo: Probe,
    info: DockerInfo,
) -> Option<Seq<char>> {
    if !(docker is Started) {
        Some(
            probe_complaint(
                "docker"@,
                "Docker is required — install Docker Desktop or Colima and retry"@,
                docker,
            ),
        )
    } else if !(ssh_keygen is Started) {
        Some(
            probe_complaint(
                "ssh-keygen"@,
                "ssh-keygen is required — it ships with OpenSSH (install `openssh-client` or similar)"@,
                ssh_keygen,
            ),
        )
    } else if !(cargo is Started) {
        Some(probe_complaint("cargo"@, cargo_hint(), cargo))
    } else {
        match info {
            DockerInfo::Running => None,
            DockerInfo::NotRunning => Some(
                "docker CLI is installed but the daemon isn't running — start Docker Desktop / Colima / rancher-desktop and retry"@,
            ),
            DockerInfo::Failed(_) => Some("running `docker info`"@),
        }
    }
}

/// Checks that the demo can start.
pub fn preflight(docker: &Probe, ssh_keygen: &Probe, cargo: &Probe, info: &DockerInfo) -> (r: Result<
    (),
    String,
>)
    ensures
        (match r {
            Ok(_) => None,
            Err(text) => Some(text@),
        }) == demo_verdict(*docker, *ssh_keygen, *cargo, *info),
{
    match ensure_on_path(
        "docker",
        "Docker is required — install Docker Desktop or Colima and retry",
        docker,
    ) {
        Err(text) => return Err(text),
        Ok(_) => {},
    }
    match ensure_on_path(
        "ssh-keygen",
        "ssh-keygen is required — it ships with OpenSSH (install `openssh-client` or similar)",
        ssh_keygen,
    ) {
        Err(text) => return Err(text),
        Ok(_) => {},
    }
    match ensure_on_path(
        "cargo",
        "cargo is required — install Rust via https://rustup.rs and retry",
        cargo,
    ) {
        Err(text) => return Err(text),
        Ok(_) => {},
    }
    match info {
        DockerInfo::Running => Ok(()),
        DockerInfo::NotRunning => Err(
            String::from_str(
                "docker CLI is installed but the daemon isn't running — start Docker Desktop / Colima / rancher-desktop and retry",
            ),
        ),
        DockerInfo::Failed(_) => Err(String::from_str("running `docker info`")),
    }
}

/// Keys of an earlier run are used again, if both are there.
pub fn needs_keypair(private_exists: bool, public_exists: bool) -> (r: bool)
    ensures
        r == !(private_exists && public_exists),
{
    !(private_exists && public_exists)
}

/// The arguments of `ssh-keygen`.
pub open spec fn keygen_command(key: Seq<char>) -> Seq<Seq<char>> {
    seq![
        "-t"@,
        "ed25519"@,
        "-N"@,
        ""@,
        "-f"@,
        key,
        "-q"@,
        "-C"@,
        "tepegoz-demo-phase-5"@,
    ]
}

/// The arguments of `ssh-keygen`, for a key at the path `key`.
pub fn keygen_args(key: &str) -> (r: Vec<String>)
    ensures
        texts(r@) == keygen_command(key@),
{
    let mut v: Vec<String> = Vec::new();
    v.push(String::from_str("-t"));
    v.push(String::from_str("ed25519"));
    v.push(String::from_str("-N"));
    v.push(String::from_str(""));
    v.push(String::from_str("-f"));
    v.push(key.to_owned());
    v.push(String::from_str("-q"));
    v.push(String::from_str("-C"));
    v.push(String::from_str("tepegoz-demo-phase-5"));
    assert(texts(v@) =~= keygen_command(key@));
    v
}

/// The arguments of `docker` that start the server.
pub open spec fn run_command(public_key: Seq<char>) -> Seq<Seq<char>> {
    seq![
        "run"@,
        "-d"@,
        "--name"@,
        container_name(),
        "-e"@,
        "PUID=1000"@,
        "-e"@,
        "PGID=1000"@,
        "-e"@,
        "USER_NAME=tepegoz"@,
        "-e"@,
        "PUBLIC_KEY="@ + trimmed(public_key),
        "-p"@,
        "0:2222"@,
        "lscr.io/linuxserver/openssh-server:latest"@,
    ]
}

/// The arguments of `docker` that start the server, given the contents of the
/// public key's file.
pub fn run_args(public_key: &str) -> (r: Vec<String>)
    ensures
        texts(r@) == run_command(public_key@),
{
    let mut v: Vec<String> = Vec::new();
    v.push(String::from_str("run"));
    v.push(String::from_str("-d"));
    v.push(String::from_str("--name"));
    v.push(String::from_str("tepegoz-demo-phase-5-sshd"));
    v.push(String::from_str("-e"));
    v.push(String::from_str("PUID=1000"));
    v.push(String::from_str("-e"));
    v.push(String::from_str("PGID=1000"));
    v.push(String::from_str("-e"));
    v.push(String::from_str("USER_NAME=tepegoz"));
    v.push(String::from_str("-e"));
    v.push(String::from_str("PUBLIC_KEY=").concat(trim(public_key).as_str()));
    v.push(String::from_str("-p"));
    v.push(String::from_str("0:2222"));
    v.push(String::from_str("lscr.io/linuxserver/openssh-server:latest"));
    assert(texts(v@) =~= run_command(public_key@));
    v
}

/// What is said when docker fails at `what`, given what it printed as errors.
pub fn docker_failure(what: &str, printed: &[u8]) -> (r: String)
    ensures
        r@ == "docker "@ + what@ + " failed: "@ + trimmed(utf8_lossy(printed@)),
{
    String::from_str("docker ").concat(what).concat(" failed: ").concat(
        trim(from_utf8_lossy(printed).as_str()).as_str(),
    )
}

/// The first line of a text; nothing of an empty one.
pub open spec fn first_line(s: Seq<char>) -> Seq<char> {
    if text_lines(s).len() > 0 {
        text_lines(s)[0]
    } else {
        Seq::empty()
    }
}

/// The port in docker's answer, of which each line ends in an address and a
/// port with a colon between them: the first line's.
pub open spec fn port_in(answer: Seq<char>) -> Option<nat> {
    unsigned_value(
        encode_utf8(first_word(after_last(first_line(trimmed(answer)), ':'))),
        u16::MAX as nat,
    )
}

/// Reads the port in docker's answer.
pub fn read_port(answer: &str) -> (r: Option<u16>)
    ensures
        match r {
            Some(port) => port_in(answer@) == Some(port as nat),
            None => port_in(answer@) is None,
        },
{
    let text = trim(answer);
    let mut lines = lines_of(text.as_str());
    assert(texts(lines@).len() == lines@.len());
    let line: String = if lines.len() > 0 {
        assert(texts(lines@)[0] == lines@[0]@);
        lines[0].clone()
    } else {
        String::new()
    };
    assert(line@ =~= first_line(trimmed(answer@)));
    let tail = tail_after(line.as_str(), ':');
    let word = leading_word(tail.as_str());
    match parse_unsigned(word.as_str().as_bytes(), 65535) {
        Some(v) => Some(v as u16),
        None => None,
    }
}

/// Takes the port out of what `docker port` printed.
pub fn host_port(printed: &[u8]) -> (r: Result<u16, String>)
    ensures
        match r {
            Ok(port) => port_in(utf8_lossy(printed@)) == Some(port as nat),
            Err(text) => port_in(utf8_lossy(printed@)) is None && text@
                == "failed to parse host port from `docker port` output: "@ + quoted(
                trimmed(utf8_lossy(printed@)),
            ),
        },
{
    let answer = from_utf8_lossy(printed);
    match read_port(answer.as_str()) {
        Some(port) => Ok(port),
        None => Err(
            String::from_str("failed to parse host port from `docker port` output: ").concat(
                quote(trim(answer.as_str()).as_str()).as_str(),
            ),
        ),
    }
}

/// The daemon's configuration.
pub open spec fn config_text(port: u16, key: Seq<char>) -> Seq<char> {
    "[[ssh.hosts]]\nalias = \"staging\"\nhostname = \"127.0.0.1\"\nport = "@ + decimal(port as nat)
        + "\nuser = \"tepegoz\"\nidentity_file = \""@ + key + "\"\n"@
}

/// The daemon's configuration, for a server on `port` and the key at the path
/// `key`.
pub fn config_toml(port: u16, key: &str) -> (r: String)
    ensures
        r@ == config_text(port, key@),
{
    String::from_str(
        "[[ssh.hosts]]\nalias = \"staging\"\nhostname = \"127.0.0.1\"\nport = ",
    ).concat(decimal_string(port as u64).as_str()).concat(
        "\nuser = \"tepegoz\"\nidentity_file = \"",
    ).concat(key).concat("\"\n")
}

/// What a loop that waits for something does next.
#[derive(Debug, Clone, Copy, PartialEq, Eq, Structural)]
pub enum Waiting {
    /// Look whether it is there.
    Look,
    /// Wait a little.
    Sleep,
    /// It is there.
    Ready,
    /// The time is up.
    GiveUp,
}

/// Decides what a loop that waits does next. `looked` is what it saw, if it
/// looked since it last slept; time is checked before each look.
pub fn waiting_step(now: u64, deadline: u64, looked: Option<bool>) -> (r: Waiting)
    ensures
        r == (match looked {
            Some(true) => Waiting::Ready,
            Some(false) => Waiting::Sleep,
            None => if now < deadline {
                Waiting::Look
            } else {
                Waiting::GiveUp
            },
        }),
{
    match looked {
        Some(seen) => if seen {
            Waiting::Ready
        } else {
            Waiting::Sleep
        },
        None => if now < deadline {
            Waiting::Look
        } else {
            Waiting::GiveUp
        },
    }
}

/// What is said when the server does not come up.
pub fn tcp_timeout(port: u16) -> (r: String)
    ensures
        r@ == "sshd container did not accept TCP on 127.0.0.1:"@ + decimal(port as nat)
            + " within 30s"@,
{
    String::from_str("sshd container did not accept TCP on 127.0.0.1:").concat(
        decimal_string(port as u64).as_str(),
    ).concat(" within 30s")
}

/// What is said when the daemon does not come up. `shown` is its socket's
/// path written out.
pub fn socket_timeout(shown: &str) -> (r: String)
    ensures
        r@ == "daemon socket never appeared at "@ + shown@
            + " within 5s — another tepegoz daemon may already be running"@,
{
    String::from_str("daemon socket never appeared at ").concat(shown).concat(
        " within 5s — another tepegoz daemon may already be running",
    )
}

/// What is said when everything is up.
pub open spec fn ready_text(
    port: u16,
    config: Seq<char>,
    socket: Seq<char>,
    root: Seq<char>,
) -> Seq<Seq<char>> {
    seq![
        ""@,
        "sshd container: "@ + container_name() + " on 127.0.0.1:"@ + decimal(port as nat),
        "tepegoz config: "@ + config,
        "daemon socket:  "@ + socket,
        "demo root:      "@ + root,
        ""@,
        "Ready. Run 'tepegoz tui' in a new terminal."@,
        ""@,
        "(Ctrl-C here when done — it'll tear the fixture down cleanly.)"@,
    ]
}

/// What is said when everything is up, line by line. The paths are written
/// out.
pub fn ready_lines(port: u16, config: &str, socket: &str, root: &str) -> (r: Vec<String>)
    ensures
        texts(r@) == ready_text(port, config@, socket@, root@),
{
    let mut v: Vec<String> = Vec::new();
    v.push(String::from_str(""));
    v.push(
        String::from_str("sshd container: ").concat("tepegoz-demo-phase-5-sshd").concat(
            " on 127.0.0.1:",
        ).concat(decimal_string(port as u64).as_str()),
    );
    v.push(String::from_str("tepegoz config: ").concat(config));
    v.push(String::from_str("daemon socket:  ").concat(socket));
    v.push(String::from_str("demo root:      ").concat(root));
    v.push(String::from_str(""));
    v.push(String::from_str("Ready. Run 'tepegoz tui' in a new terminal."));
    v.push(String::from_str(""));
    v.push(
        String::from_str("(Ctrl-C here when done — it'll tear the fixture down cleanly.)"),
    );
    assert(texts(v@) =~= ready_text(port, config@, socket@, root@));
    v
}

/// The process to stop, by the contents of the file that the daemon's number
/// was written to. Anything else in it is ignored.
pub fn daemon_pid(contents: &str) -> (r: Option<u32>)
    ensures
        match r {
            Some(pid) => number_in(contents@, u32::MAX as nat) == Some(pid as nat),
            None => number_in(contents@, u32::MAX as nat) is None,
        },
{
    read_number(contents, u32::MAX)
}

} // verus!
