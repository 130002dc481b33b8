//! Checks before a task changes anything.
//!
//! Cross-compiling needs two things at once: the target's standard library
//! and `cargo-zigbuild`. Both are checked, and one message names everything
//! that is missing.

use vstd::prelude::*;

use crate::text::{
    begins_with, ends_with, finishes_with, from_utf8_lossy, join, joined, lines_of, starts_with,
    text_lines, texts, trim, trimmed, utf8_lossy,
};

verus! {

/// How starting a program went.
#[derive(Debug, Clone)]
pub enum Probe {
    /// It started, whatever it answered.
    Started,
    /// There is no such program.
    NotFound,
    /// It could not be started.
    Failed(String),
}

/// The system that a task runs on.
#[derive(Debug, Clone, Copy, PartialEq, Eq, Structural)]
pub enum HostOs {
    Linux,
    MacOs,
    Other,
}

/// What is said of a program that did not start.
pub open spec fn probe_complaint(binary: Seq<char>, hint: Seq<char>, probe: Probe) -> Seq<char> {
    match probe {
        Probe::Started => Seq::empty(),
        Probe::NotFound => "`"@ + binary + "` not found on PATH. "@ + hint,
        Probe::Failed(why) => "failed to probe `"@ + binary + "`: "@ + why@ + ". "@ + hint,
    }
}

/// A program has to be there.
pub fn ensure_on_path(binary: &str, hint: &str, probe: &Probe) -> (r: Result<(), String>)
    ensures
        r is Ok <==> probe is Started,
        r matches Err(text) ==> text@ == probe_complaint(binary@, hint@, *probe),
{
    match probe {
        Probe::Started => Ok(()),
        Probe::NotFound => Err(
            String::from_str("`").concat(binary).concat("` not found on PATH. ").concat(hint),
        ),
        Probe::Failed(why) => Err(
            String::from_str("failed to probe `").concat(binary).concat("`: ").concat(
                why.as_str(),
            ).concat(". ").concat(hint),
        ),
    }
}

/// Whether a program is there.
pub fn is_on_path(probe: &Probe) -> (r: bool)
    ensures
        r == (probe is Started),
{
    match probe {
        Probe::Started => true,
        _ => false,
    }
}

/// The targets of a release, the ones for macOS first.
pub open spec fn release_target_names() -> Seq<Seq<char>> {
    seq![
        "x86_64-apple-darwin"@,
        "aarch64-apple-darwin"@,
        "x86_64-unknown-linux-musl"@,
        "aarch64-unknown-linux-musl"@,
    ]
}

/// The targets of a release.
pub fn release_targets() -> (r: Vec<String>)
    ensures
        texts(r@) == release_target_names(),
{
    let mut v: Vec<String> = Vec::new();
    v.push(String::from_str("x86_64-apple-darwin"));
    v.push(String::from_str("aarch64-apple-darwin"));
    v.push(String::from_str("x86_64-unknown-linux-musl"));
    v.push(String::from_str("aarch64-unknown-linux-musl"));
    assert(texts(v@) =~= release_target_names());
    v
}

/// A target for macOS.
pub open spec fn spec_is_darwin(target: Seq<char>) -> bool {
    finishes_with(target, "-apple-darwin"@)
}

/// Whether a target is for macOS.
pub fn is_darwin(target: &str) -> (r: bool)
    ensures
        r == spec_is_darwin(target@),
{
    ends_with(target, "-apple-darwin")
}

/// `target` stands on a line of its own in the list, perhaps with white space
/// around it.
pub open spec fn lists_target(list: Seq<char>, target: Seq<char>) -> bool {
    exists|i: int|
        0 <= i < text_lines(list).len() && trimmed(#[trigger] text_lines(list)[i]) == target
}

/// Whether `target` stands in a list of installed targets.
pub fn list_has_target(list: &str, target: &String) -> (r: bool)
    ensures
        r == lists_target(list@, target@),
{
    let lines = lines_of(list);
    let ghost all = text_lines(list@);
    let n: usize = lines.len();
    let mut i: usize = 0;
    assert(texts(lines@).len() == n);
    while i < n
        invariant
            n == lines@.len(),
            texts(lines@) == all,
            all == text_lines(list@),
            0 <= i <= n,
            forall|j: int| 0 <= j < i ==> trimmed(#[trigger] all[j]) != target@,
        decreases n - i,
    {
        assert(all[i as int] == lines@[i as int]@);
        if trim(lines[i].as_str()) == *target {
            return true;
        }
        i += 1;
    }
    false
}

/// `target` is installed, by what `rustup` printed. `None` means that it
/// could not be asked, and then nothing counts as installed.
pub open spec fn target_installed(rustup: Option<Seq<u8>>, target: Seq<char>) -> bool {
    match rustup {
        Some(bytes) => lists_target(utf8_lossy(bytes), target),
        None => false,
    }
}

/// Whether `target` is installed, by what `rustup` printed.
pub fn rustup_has_target(rustup: Option<&[u8]>, target: &String) -> (r: bool)
    ensures
        r == target_installed(printed(rustup), target@),
{
    match rustup {
        Some(bytes) => list_has_target(from_utf8_lossy(bytes).as_str(), target),
        None => false,
    }
}

/// The texts that `keep` holds of, in their order.
pub open spec fn kept(all: Seq<Seq<char>>, keep: spec_fn(Seq<char>) -> bool) -> Seq<Seq<char>>
    decreases all.len(),
{
    if all.len() == 0 {
        Seq::empty()
    } else if keep(all.last()) {
        kept(all.drop_last(), keep).push(all.last())
    } else {
        kept(all.drop_last(), keep)
    }
}

/// The targets for macOS.
pub open spec fn for_darwin(targets: Seq<Seq<char>>) -> Seq<Seq<char>> {
    kept(targets, |t: Seq<char>| spec_is_darwin(t))
}

/// The targets that are not installed.
pub open spec fn absent(targets: Seq<Seq<char>>, rustup: Option<Seq<u8>>) -> Seq<Seq<char>> {
    kept(targets, |t: Seq<char>| !target_installed(rustup, t))
}

/// What a program printed, if it could be asked.
pub open spec fn printed(output: Option<&[u8]>) -> Option<Seq<u8>> {
    match output {
        Some(bytes) => Some(bytes@),
        None => None,
    }
}

/// What is said on Linux of targets for macOS.
pub open spec fn darwin_complaint(forbidden: Seq<Seq<char>>) -> Seq<char> {
    "R1 preflight: cross-compiling to darwin from a Linux host is not supported (needs a macOS SDK shim we don't ship). Use a macOS host for darwin targets.\nForbidden on this host: "@
        + joined(forbidden, ", "@)
}

/// The commands that install what is missing.
pub open spec fn install_lines(missing: Seq<Seq<char>>, zigbuild_missing: bool, host: HostOs) -> Seq<
    Seq<char>,
> {
    let targets = if missing.len() > 0 {
        seq!["rustup target add "@ + joined(missing, " "@)]
    } else {
        Seq::empty()
    };
    if zigbuild_missing {
        targets.push("cargo install --locked cargo-zigbuild"@).push(
            if host == HostOs::MacOs {
                "brew install zig"@
            } else {
                "# then install zig via your package manager (apt/dnf/pacman)"@
            },
        )
    } else {
        targets
    }
}

/// What is missing, a line for each kind.
pub open spec fn missing_summary(missing: Seq<Seq<char>>, zigbuild_missing: bool) -> Seq<char> {
    (if missing.len() > 0 {
        "\n  - rustup targets (std-lib): "@ + joined(missing, ", "@)
    } else {
        Seq::empty()
    }) + (if zigbuild_missing {
        "\n  - cargo-zigbuild (linker; covers both musl and darwin via zig's cross-toolchain)"@
    } else {
        Seq::empty()
    })
}

/// What is said of a toolchain that is not complete.
pub open spec fn toolchain_complaint(
    missing: Seq<Seq<char>>,
    zigbuild_missing: bool,
    host: HostOs,
) -> Seq<char> {
    "cross-compile preflight failed. Missing on this host:"@ + missing_summary(
        missing,
        zigbuild_missing,
    ) + "\n\nInstall:\n  "@ + joined(install_lines(missing, zigbuild_missing, host), "\n  && "@)
        + "\n\nThen re-run."@
}

/// The verdict on a toolchain: nothing to say, or everything that is wrong.
pub open spec fn toolchain_verdict(
    targets: Seq<Seq<char>>,
    host: HostOs,
    rustup: Option<Seq<u8>>,
    zigbuild: Probe,
) -> Option<Seq<char>> {
    let forbidden = for_darwin(targets);
    let missing = absent(targets, rustup);
    if host == HostOs::Linux && forbidden.len() > 0 {
        Some(darwin_complaint(forbidden))
    } else if missing.len() == 0 && zigbuild is Started {
        None
    } else {
        Some(toolchain_complaint(missing, !(zigbuild is Started), host))
    }
}

fn darwin_targets(targets: &Vec<String>) -> (r: Vec<String>)
    ensures
        texts(r@) == for_darwin(texts(targets@)),
{
    let ghost keep = |t: Seq<char>| spec_is_darwin(t);
    let ghost all = texts(targets@);
    let mut r: Vec<String> = Vec::new();
    let n: usize = targets.len();
    let mut i: usize = 0;
    assert(all.take(0) =~= Seq::empty());
    assert(texts(r@) =~= kept(all.take(0), keep));
    while i < n
        invariant
            n == targets@.len(),
            all == texts(targets@),
            keep == (|t: Seq<char>| spec_is_darwin(t)),
            0 <= i <= n,
            texts(r@) == kept(all.take(i as int), keep),
        decreases n - i,
    {
        proof {
            assert(all.take(i + 1).drop_last() =~= all.take(i as int));
            assert(all[i as int] == targets@[i as int]@);
        }
        let ghost before = texts(r@);
        if is_darwin(targets[i].as_str()) {
            r.push(targets[i].clone());
            assert(texts(r@) =~= before.push(all[i as int]));
        }
        i += 1;
    }
    assert(all.take(n as int) =~= all);
    r
}

fn missing_targets(targets: &Vec<String>, rustup: Option<&[u8]>) -> (r: Vec<String>)
    ensures
        texts(r@) == absent(texts(targets@), printed(rustup)),
{
    let ghost list = printed(rustup);
    let ghost keep = |t: Seq<char>| !target_installed(list, t);
    let ghost all = texts(targets@);
    let mut r: Vec<String> = Vec::new();
    let n: usize = targets.len();
    let mut i: usize = 0;
    assert(all.take(0) =~= Seq::empty());
    assert(texts(r@) =~= kept(all.take(0), keep));
    while i < n
        invariant
            n == targets@.len(),
            all == texts(targets@),
            list == printed(rustup),
            keep == (|t: Seq<char>| !target_installed(list, t)),
            0 <= i <= n,
            texts(r@) == kept(all.take(i as int), keep),
        decreases n - i,
    {
        proof {
            assert(all.take(i + 1).drop_last() =~= all.take(i as int));
            assert(all[i as int] == targets@[i as int]@);
        }
        let ghost before = texts(r@);
        if !rustup_has_target(rustup, &targets[i]) {
            r.push(targets[i].clone());
            assert(texts(r@) =~= before.push(all[i as int]));
        }
        i += 1;
    }
    assert(all.take(n as int) =~= all);
    r
}

fn complain_of_toolchain(missing: &Vec<String>, zigbuild_missing: bool, host: HostOs) -> (r: String)
    ensures
        r@ == toolchain_complaint(texts(missing@), zigbuild_missing, host),
{
    let ghost absent = texts(missing@);
    assert(absent.len() == missing@.len());
    let mut summary = String::new();
    let mut lines: Vec<String> = Vec::new();
    let ghost no_lines: Seq<Seq<char>> = Seq::empty();
    assert(texts(lines@) =~= no_lines);
    if missing.len() > 0 {
        summary.append("\n  - rustup targets (std-lib): ");
        summary.append(join(missing, ", ").as_str());
        lines.push(
            String::from_str("rustup target add ").concat(join(missing, " ").as_str()),
        );
    }
    if zigbuild_missing {
        summary.append(
            "\n  - cargo-zigbuild (linker; covers both musl and darwin via zig's cross-toolchain)",
        );
        lines.push(String::from_str("cargo install --locked cargo-zigbuild"));
        lines.push(
            String::from_str(
                if host == HostOs::MacOs {
                    "brew install zig"
                } else {
                    "# then install zig via your package manager (apt/dnf/pacman)"
                },
            ),
        );
    }
    proof {
        assert(summary@ =~= missing_summary(absent, zigbuild_missing));
        assert(texts(lines@) =~= install_lines(absent, zigbuild_missing, host));
    }
    String::from_str("cross-compile preflight failed. Missing on this host:").concat(
        summary.as_str(),
    ).concat("\n\nInstall:\n  ").concat(join(&lines, "\n  && ").as_str()).concat(
        "\n\nThen re-run.",
    )
}

/// Checks that every target can be built on this host. `rustup` is what it
/// printed as the installed targets, if it could be asked.
pub fn check_cross_build_toolchain(
    targets: &Vec<String>,
    host: HostOs,
    rustup: Option<&[u8]>,
    zigbuild: &Probe,
) -> (r: Result<(), String>)
    ensures
        (match r {
            Ok(_) => None,
            Err(text) => Some(text@),
        }) == toolchain_verdict(
            texts(targets@),
            host,
            printed(rustup),
            *zigbuild,
        ),
{
    if host == HostOs::Linux {
        let forbidden = darwin_targets(targets);
        assert(texts(forbidden@).len() == forbidden@.len());
        if forbidden.len() > 0 {
            return Err(
                String::from_str(
                    "R1 preflight: cross-compiling to darwin from a Linux host is not supported (needs a macOS SDK shim we don't ship). Use a macOS host for darwin targets.\nForbidden on this host: ",
                ).concat(join(&forbidden, ", ").as_str()),
            );
        }
    }
    let missing = missing_targets(targets, rustup);
    let zigbuild_missing: bool = !is_on_path(zigbuild);
    assert(texts(missing@).len() == missing@.len());
    if missing.len() == 0 && !zigbuild_missing {
        return Ok(());
    }
    Err(complain_of_toolchain(&missing, zigbuild_missing, host))
}

proof fn lemma_kept(all: Seq<Seq<char>>, keep: spec_fn(Seq<char>) -> bool)
    ensures
        kept(all, keep).len() == 0 <==> forall|i: int| 0 <= i < all.len() ==> !keep(#[trigger] all[i]),
    decreases all.len(),
{
    if all.len() > 0 {
        let shorter = all.drop_last();
        lemma_kept(shorter, keep);
        if keep(all.last()) {
            assert(keep(all[all.len() - 1]));
        } else {
            assert forall|i: int|
                (forall|i: int| 0 <= i < shorter.len() ==> !keep(#[trigger] shorter[i])) && 0 <= i
                    < all.len() implies !keep(#[trigger] all[i]) by {
                if i < shorter.len() {
                    assert(shorter[i] == all[i]);
                }
            }
            if exists|i: int| 0 <= i < shorter.len() && keep(#[trigger] shorter[i]) {
                let i = choose|i: int| 0 <= i < shorter.len() && keep(#[trigger] shorter[i]);
                assert(keep(all[i]));
            }
        }
    }
}

/// The check passes exactly if every layer is there: `cargo-zigbuild` can be
/// started, every target is installed, and no target for macOS is asked of
/// Linux. One layer never makes up for another.
pub proof fn both_layers_are_needed(
    targets: Seq<Seq<char>>,
    host: HostOs,
    rustup: Option<Seq<u8>>,
    zigbuild: Probe,
)
    ensures
        toolchain_verdict(targets, host, rustup, zigbuild) is None <==> {
            &&& zigbuild is Started
            &&& forall|i: int|
                0 <= i < targets.len() ==> target_installed(rustup, #[trigger] targets[i])
            &&& host == HostOs::Linux ==> forall|i: int|
                0 <= i < targets.len() ==> !spec_is_darwin(#[trigger] targets[i])
        },
{
    let forbidden = |t: Seq<char>| spec_is_darwin(t);
    let missing = |t: Seq<char>| !target_installed(rustup, t);
    lemma_kept(targets, forbidden);
    lemma_kept(targets, missing);
    assert forall|i: int| 0 <= i < targets.len() implies forbidden(#[trigger] targets[i])
        == spec_is_darwin(targets[i]) by {}
    assert forall|i: int| 0 <= i < targets.len() implies missing(#[trigger] targets[i])
        == !target_installed(rustup, targets[i]) by {}
}

/// A zig whose archiver still creates archives.
pub open spec fn zig_works(version: Seq<char>) -> bool {
    begins_with(version, "0.14."@) || begins_with(version, "0.15."@)
}

/// What is said of a zig whose archiver does not.
pub open spec fn zig_complaint(version: Seq<char>) -> Seq<char> {
    "zig "@ + version
        + " is incompatible with ring 0.17.14's cross-build (llvm-ar 21 regressed archive creation — `ar cq libfoo.a foo.o` no longer auto-creates the output). Install zig 0.15 (0.14 also works but has a macOS 26 SDK-path bug that can break darwin agent builds):\n\n  brew install zig@0.15\n  export PATH=\"/opt/homebrew/opt/zig@0.15/bin:$PATH\"\n\nThen re-run. (The agent cross-build isn't affected because `tepegoz-agent` has no russh/ring dep — this check only gates `build-release`.)"@
}

/// Checks a zig version, as printed.
pub fn check_zig_version(printed: &str) -> (r: Result<(), String>)
    ensures
        r is Ok <==> zig_works(trimmed(printed@)),
        r matches Err(text) ==> text@ == zig_complaint(trimmed(printed@)),
{
    let version = trim(printed);
    if starts_with(version.as_str(), "0.14.") || starts_with(version.as_str(), "0.15.") {
        Ok(())
    } else {
        Err(
            String::from_str("zig ").concat(version.as_str()).concat(
                " is incompatible with ring 0.17.14's cross-build (llvm-ar 21 regressed archive creation — `ar cq libfoo.a foo.o` no longer auto-creates the output). Install zig 0.15 (0.14 also works but has a macOS 26 SDK-path bug that can break darwin agent builds):\n\n  brew install zig@0.15\n  export PATH=\"/opt/homebrew/opt/zig@0.15/bin:$PATH\"\n\nThen re-run. (The agent cross-build isn't affected because `tepegoz-agent` has no russh/ring dep — this check only gates `build-release`.)",
            ),
        )
    }
}

/// Checks the zig on the path by what `zig version` printed. A zig that is
/// not there is another check's business.
pub fn check_zig_ring_compatibility(printed: Option<&[u8]>) -> (r: Result<(), String>)
    ensures
        printed is None ==> r is Ok,
        printed matches Some(bytes) ==> {
            let version = trimmed(utf8_lossy(bytes@));
            &&& r is Ok <==> zig_works(version)
            &&& r matches Err(text) ==> text@ == zig_complaint(version)
        },
{
    match printed {
        Some(bytes) => check_zig_version(from_utf8_lossy(bytes).as_str()),
        None => Ok(()),
    }
}

/// The tool that fuses binaries for macOS: Apple's if it is there, else
/// LLVM's.
pub fn find_lipo(lipo: &Probe, llvm_lipo: &Probe) -> (r: Option<&'static str>)
    ensures
        (match r {
            Some(tool) => Some(tool@),
            None => None,
        }) == (if lipo is Started {
            Some("lipo"@)
        } else if llvm_lipo is Started {
            Some("llvm-lipo"@)
        } else {
            None
        }),
{
    if is_on_path(lipo) {
        Some("lipo")
    } else if is_on_path(llvm_lipo) {
        Some("llvm-lipo")
    } else {
        None
    }
}

} // verus!
