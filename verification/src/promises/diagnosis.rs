//! The doctor: what it reports of the configured hosts.

use vstd::prelude::*;

use crate::doctor::{all_host_lines, host_lines, host_named, hosts_report};
use crate::proto::HostEntry;
use crate::text::{decimal, joined, texts};

verus! {

/// The report begins with the source and the number of hosts, and says so
/// where there is none.
pub proof fn the_report_begins_with_the_source(source: Seq<char>, hosts: Seq<HostEntry>)
    ensures
        hosts_report(source, hosts).len() >= 3,
        hosts_report(source, hosts)[0] == "source: "@ + source,
        hosts_report(source, hosts)[1] == "hosts ("@ + decimal(hosts.len()) + "):"@,
        hosts.len() == 0 ==> hosts_report(source, hosts).len() == 3 && hosts_report(
            source,
            hosts,
        )[2]
            == "  (none) — add entries to ~/.ssh/config or set TEPEGOZ_SSH_HOSTS=<alias>,<alias>,..."@,
        hosts.len() > 0 ==> hosts_report(source, hosts).subrange(
            2,
            hosts_report(source, hosts).len() as int,
        ) == all_host_lines(hosts, hosts.len()),
{
    if hosts.len() > 0 {
        reveal_with_fuel(all_host_lines, 2);
        assert(hosts_report(source, hosts).subrange(
            2,
            hosts_report(source, hosts).len() as int,
        ) =~= all_host_lines(hosts, hosts.len()));
    }
}

/// A host is reported with its alias, its user and where it is reached, on a
/// line; then its keys if it has any, and its proxy if it has one.
pub proof fn a_host_is_reported_in_full(h: HostEntry)
    ensures
        host_lines(h)[0] == "  "@ + h.alias@ + "  "@ + h.user@ + "@"@ + h.hostname@ + ":"@
            + decimal(h.port as nat),
        host_lines(h).len() == 1 + (if h.identity_files@.len() > 0 {
            1int
        } else {
            0int
        }) + (if h.proxy_jump is Some {
            1int
        } else {
            0int
        }),
        h.identity_files@.len() > 0 ==> host_lines(h)[1] == "    IdentityFile: "@ + joined(
            texts(h.identity_files@),
            ", "@,
        ),
        h.proxy_jump is Some ==> host_lines(h).last() == "    ProxyJump: "@ + h.proxy_jump->0@
            + " (not supported in v1 — Slice 5c surfaces this)"@,
{
}

/// Hosts are reported one after the other, in the order of the list: the lines
/// of each are found behind those of the hosts before it.
pub proof fn hosts_are_reported_in_order(hosts: Seq<HostEntry>, n: nat, i: int)
    requires
        n <= hosts.len(),
        0 <= i < n,
    ensures
        ({
            let before = all_host_lines(hosts, i as nat).len() as int;
            let all = all_host_lines(hosts, n);
            &&& before + host_lines(hosts[i]).len() <= all.len()
            &&& all.subrange(before, before + host_lines(hosts[i]).len()) == host_lines(hosts[i])
        }),
    decreases n,
{
    let before = all_host_lines(hosts, i as nat).len() as int;
    let all = all_host_lines(hosts, n);
    if i == n - 1 {
        assert(all.subrange(before, before + host_lines(hosts[i]).len()) =~= host_lines(hosts[i]));
    } else {
        hosts_are_reported_in_order(hosts, (n - 1) as nat, i);
        assert(all.subrange(before, before + host_lines(hosts[i]).len()) =~= all_host_lines(
            hosts,
            (n - 1) as nat,
        ).subrange(before, before + host_lines(hosts[i]).len()));
    }
}

/// A host is found by its alias: the first that has it.
pub proof fn hosts_are_found_by_their_alias(hosts: Seq<HostEntry>, alias: Seq<char>, i: int)
    ensures
        0 <= i < hosts.len() && hosts[i].alias@ == alias && (forall|k: int|
            0 <= k < i ==> (#[trigger] hosts[k]).alias@ != alias) ==> host_named(hosts, alias)
            == Some(i),
        (forall|k: int| 0 <= k < hosts.len() ==> (#[trigger] hosts[k]).alias@ != alias)
            ==> host_named(hosts, alias) is None,
    decreases hosts.len(),
{
    if hosts.len() > 0 {
        let front = hosts.drop_last();
        hosts_are_found_by_their_alias(front, alias, i);
        assert forall|k: int| 0 <= k < front.len() implies front[k] == hosts[k] by {}
        if 0 <= i < hosts.len() && hosts[i].alias@ == alias && (forall|k: int|
            0 <= k < i ==> (#[trigger] hosts[k]).alias@ != alias) {
            if i == hosts.len() - 1 {
                assert forall|k: int| 0 <= k < front.len() implies (#[trigger] front[k]).alias@
                    != alias by {
                    assert(front[k] == hosts[k]);
                }
            }
        }
        if forall|k: int| 0 <= k < hosts.len() ==> (#[trigger] hosts[k]).alias@ != alias {
            assert forall|k: int| 0 <= k < front.len() implies (#[trigger] front[k]).alias@
                != alias by {
                assert(front[k] == hosts[k]);
            }
            assert(hosts[hosts.len() - 1].alias@ != alias);
        }
    }
}

} // verus!
