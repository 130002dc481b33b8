//! What the command line answers by itself.

use vstd::prelude::*;

use crate::proto::HostEntry;
use crate::text::{decimal, decimal_string, join, joined, texts};

verus! {

/// What `doctor` is asked for.
#[derive(Debug, Clone)]
pub enum DoctorTask {
    /// Forget the key of a host.
    Forget(String),
    /// List the configured hosts.
    ListHosts,
    /// Nothing that it can do yet.
    Nothing,
}

/// Forgetting a host's key comes before listing hosts.
pub fn doctor_task(forget: Option<String>, list_hosts: bool) -> (r: DoctorTask)
    ensures
        r == (match forget {
            Some(alias) => DoctorTask::Forget(alias),
            None => if list_hosts {
                DoctorTask::ListHosts
            } else {
                DoctorTask::Nothing
            },
        }),
{
    match forget {
        Some(alias) => DoctorTask::Forget(alias),
        None => if list_hosts {
            DoctorTask::ListHosts
        } else {
            DoctorTask::Nothing
        },
    }
}

/// The agent speaks only over stdin and stdout.
pub fn require_stdio(stdio: bool) -> (r: Result<(), String>)
    ensures
        r is Ok <==> stdio,
        r matches Err(text) ==> text@
            == "tepegoz agent: only --stdio is supported in Phase 6 Slice 6a. Re-invoke with --stdio, or run the standalone `tepegoz-agent` binary directly (same code path, same behavior)."@,
{
    if stdio {
        Ok(())
    } else {
        Err(
            String::from_str(
                "tepegoz agent: only --stdio is supported in Phase 6 Slice 6a. Re-invoke with --stdio, or run the standalone `tepegoz-agent` binary directly (same code path, same behavior).",
            ),
        )
    }
}

/// The lines about one host.
pub open spec fn host_lines(h: HostEntry) -> Seq<Seq<char>> {
    let first = seq![
        "  "@ + h.alias@ + "  "@ + h.user@ + "@"@ + h.hostname@ + ":"@ + decimal(h.port as nat),
    ];
    let keys = if h.identity_files@.len() > 0 {
        seq!["    IdentityFile: "@ + joined(texts(h.identity_files@), ", "@)]
    } else {
        Seq::empty()
    };
    let jump = match h.proxy_jump {
        Some(jump) => seq![
            "    ProxyJump: "@ + jump@ + " (not supported in v1 — Slice 5c surfaces this)"@,
        ],
        None => Seq::empty(),
    };
    first + keys + jump
}

/// The lines about the first `n` hosts.
pub open spec fn all_host_lines(hosts: Seq<HostEntry>, n: nat) -> Seq<Seq<char>>
    decreases n,
{
    if n == 0 {
        Seq::empty()
    } else {
        all_host_lines(hosts, (n - 1) as nat) + host_lines(hosts[n - 1])
    }
}

/// The report on the configured hosts.
pub open spec fn hosts_report(source: Seq<char>, hosts: Seq<HostEntry>) -> Seq<Seq<char>> {
    seq!["source: "@ + source, "hosts ("@ + decimal(hosts.len()) + "):"@] + if hosts.len() == 0 {
        seq![
            "  (none) — add entries to ~/.ssh/config or set TEPEGOZ_SSH_HOSTS=<alias>,<alias>,..."@,
        ]
    } else {
        all_host_lines(hosts, hosts.len())
    }
}

proof fn lemma_texts_push(v: Seq<String>, s: String)
    ensures
        texts(v.push(s)) == texts(v).push(s@),
{
    assert(texts(v.push(s)) =~= texts(v).push(s@));
}

fn push_host_lines(lines: &mut Vec<String>, h: &HostEntry)
    ensures
        texts(final(lines)@) == texts(old(lines)@) + host_lines(*h),
{
    let ghost before = texts(lines@);
    let first = String::from_str("  ").concat(h.alias.as_str()).concat("  ").concat(
        h.user.as_str(),
    ).concat("@").concat(h.hostname.as_str()).concat(":").concat(
        decimal_string(h.port as u64).as_str(),
    );
    proof {
        lemma_texts_push(lines@, first);
    }
    lines.push(first);
    if h.identity_files.len() > 0 {
        let keys = String::from_str("    IdentityFile: ").concat(
            join(&h.identity_files, ", ").as_str(),
        );
        proof {
            lemma_texts_push(lines@, keys);
        }
        lines.push(keys);
    }
    if let Some(jump) = &h.proxy_jump {
        let note = String::from_str("    ProxyJump: ").concat(jump.as_str()).concat(
            " (not supported in v1 — Slice 5c surfaces this)",
        );
        proof {
            lemma_texts_push(lines@, note);
        }
        lines.push(note);
    }
    assert(texts(lines@) =~= before + host_lines(*h));
}

/// The report on the configured hosts, line by line.
pub fn report_hosts(source: &str, hosts: &Vec<HostEntry>) -> (lines: Vec<String>)
    ensures
        texts(lines@) == hosts_report(source@, hosts@),
{
    let mut lines: Vec<String> = Vec::new();
    let n: usize = hosts.len();
    lines.push(String::from_str("source: ").concat(source));
    lines.push(
        String::from_str("hosts (").concat(decimal_string(n as u64).as_str()).concat("):"),
    );
    let ghost top = seq!["source: "@ + source@, "hosts ("@ + decimal(hosts@.len()) + "):"@];
    assert(texts(lines@) =~= top);
    if n == 0 {
        lines.push(
            String::from_str(
                "  (none) — add entries to ~/.ssh/config or set TEPEGOZ_SSH_HOSTS=<alias>,<alias>,...",
            ),
        );
        assert(texts(lines@) =~= hosts_report(source@, hosts@));
        return lines;
    }
    let mut i: usize = 0;
    assert(texts(lines@) =~= top + all_host_lines(hosts@, 0));
    while i < n
        invariant
            n == hosts@.len(),
            0 <= i <= n,
            texts(lines@) == top + all_host_lines(hosts@, i as nat),
        decreases n - i,
    {
        push_host_lines(&mut lines, &hosts[i]);
        assert(texts(lines@) =~= top + all_host_lines(hosts@, (i + 1) as nat));
        i += 1;
    }
    lines
}

/// The first host with the given alias.
pub open spec fn host_named(hosts: Seq<HostEntry>, alias: Seq<char>) -> Option<int>
    decreases hosts.len(),
{
    if hosts.len() == 0 {
        None
    } else {
        match host_named(hosts.drop_last(), alias) {
            Some(i) => Some(i),
            None => if hosts.last().alias@ == alias {
                Some(hosts.len() - 1)
            } else {
                None
            },
        }
    }
}

/// Finds the host whose key is to be forgotten; `Ok` is its place in the
/// list.
pub fn find_host(hosts: &Vec<HostEntry>, alias: &String, source: &str) -> (r: Result<usize, String>)
    ensures
        match host_named(hosts@, alias@) {
            Some(i) => r == Ok::<usize, String>(i as usize) && 0 <= i < hosts@.len(),
            None => r is Err && (r->Err_0)@ == "alias '"@ + alias@
                + "' not found in host list (source: "@ + source@ + ")"@,
        },
{
    let n: usize = hosts.len();
    let mut i: usize = 0;
    assert(hosts@.take(0) =~= Seq::empty());
    while i < n
        invariant
            n == hosts@.len(),
            0 <= i <= n,
            host_named(hosts@.take(i as int), alias@) is None,
        decreases n - i,
    {
        assert(hosts@.take(i + 1).drop_last() =~= hosts@.take(i as int));
        if hosts[i].alias == *alias {
            proof {
                lemma_found_stays(hosts@, alias@, i as int, n as int);
                assert(hosts@.take(n as int) =~= hosts@);
            }
            return Ok(i);
        }
        i += 1;
    }
    assert(hosts@.take(n as int) =~= hosts@);
    Err(
        String::from_str("alias '").concat(alias.as_str()).concat(
            "' not found in host list (source: ",
        ).concat(source).concat(")"),
    )
}

proof fn lemma_found_stays(hosts: Seq<HostEntry>, alias: Seq<char>, i: int, n: int)
    requires
        0 <= i < n <= hosts.len(),
        host_named(hosts.take(i + 1), alias) == Some(i),
    ensures
        host_named(hosts.take(n), alias) == Some(i),
    decreases n,
{
    if n > i + 1 {
        lemma_found_stays(hosts, alias, i, n - 1);
        assert(hosts.take(n).drop_last() =~= hosts.take(n - 1));
    }
}

/// What is said after forgetting a host's key. `store` is the path of the
/// key file, written out.
pub fn forget_report(removed: u64, hostname: &str, port: u16, store: &str, alias: &str) -> (r:
    String)
    ensures
        r@ == if removed == 0 {
            "no entries for "@ + hostname@ + ":"@ + decimal(port as nat) + " in "@ + store@
        } else {
            "removed "@ + decimal(removed as nat) + " entry(ies) for "@ + hostname@ + ":"@
                + decimal(port as nat) + " from "@ + store@ + " — next connection to '"@ + alias@
                + "' will re-TOFU the new key"@
        },
{
    let number = decimal_string(port as u64);
    if removed == 0 {
        String::from_str("no entries for ").concat(hostname).concat(":").concat(
            number.as_str(),
        ).concat(" in ").concat(store)
    } else {
        String::from_str("removed ").concat(decimal_string(removed).as_str()).concat(
            " entry(ies) for ",
        ).concat(hostname).concat(":").concat(number.as_str()).concat(" from ").concat(
            store,
        ).concat(" — next connection to '").concat(alias).concat("' will re-TOFU the new key")
    }
}

} // verus!
